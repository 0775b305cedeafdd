//! Content scheduling and multiplexing engine for a small monochrome
//! (128 x 40, one bit per pixel) display.
//!
//! The crate provides the bit-packed frame buffer exchanged between content
//! producers and the display sink, the scrolling-text windowing algorithm,
//! a multiplexer that polls exactly one of many lazy frame sources per tick,
//! and the scheduler state machine that arbitrates commands, notifications,
//! content frames and the auto-advance timer.

pub mod canvas;
pub mod device;
pub mod framebuffer;
pub mod media;
pub mod mpris;
pub mod music;
pub mod notifications;
pub mod providers;
pub mod scheduler;
pub mod stream;
pub mod text;
pub mod util;

pub use canvas::ScrollableCanvas;
pub use device::Device;
pub use device::SinkError;
pub use device::SupportedDevice;
pub use device::is_supported_device;
pub use media::Gif;
pub use media::Images;
pub use media::RgbaFrame;
pub use mpris::MediaPlayer2PlayerSeeked;
pub use mpris::MediaPlayerBuilder;
pub use music::MediaPlayerRenderer;
pub use music::Metadata;
pub use music::MetadataError;
pub use music::PlaybackStatus;
pub use music::PlayerEvent;
pub use music::Progress;
pub use notifications::Icon;
pub use notifications::Notification;
pub use notifications::NotificationBuilder;
pub use notifications::NotificationError;
pub use notifications::NotificationKind;
pub use providers::Clock;
pub use providers::ClockFormat;
pub use providers::CoreProps;
pub use providers::HandleRegistration;
pub use providers::Target;
pub use providers::Time;
pub use scheduler::Action;
pub use scheduler::Command;
pub use scheduler::Event;
pub use scheduler::ProviderError;
pub use scheduler::SchedulerCore;
pub use scheduler::auto_advance_enabled;
pub use scheduler::next_index;
pub use scheduler::previous_index;
pub use scheduler::refresh_threshold_ms;
pub use stream::Multiplexer;
pub use stream::PollOutcome;
pub use stream::PollSource;
pub use stream::ScriptStep;
pub use stream::VecSource;
pub use stream::multiplex;
pub use framebuffer::FrameBuffer;
pub use framebuffer::PixelUpdate;
pub use text::Area;
pub use text::Coord;
pub use text::Scrollable;
pub use text::ScrollableBuilder;
pub use text::StatefulScrollable;
pub use text::TextError;
