//! Low-overhead instrumentation: sliding-window histograms with percentile
//! queries, a cached clock, statistic channels and a token-bucket ratelimiter.

pub mod bucket;
pub mod error;
pub mod instant;
pub mod rank;
pub mod window;
pub mod heatmap;
pub mod ring;
pub mod laws;
pub mod atomics;
pub mod clock;
pub mod atomic_heatmap;
pub mod statistic;
pub mod channel;
pub mod ratelimiter;

pub use atomic_heatmap::{AtomicHeatmap, AtomicWindow};
pub use atomics::{AtomicCoarseInstant, AtomicDuration, AtomicInstant};
pub use bucket::BucketScheme;
pub use channel::Channel;
pub use clock::Clock;
pub use error::{HeatmapError, MetricsError};
pub use heatmap::Heatmap;
pub use instant::{CoarseDuration, CoarseInstant, DateTime, Duration, Instant};
pub use rank::Percentile;
pub use ratelimiter::{Ratelimiter, Refill};
pub use statistic::{Output, Source, Statistic, Summary};
pub use window::Window;
