pub mod audio;
pub mod component;
pub mod context;
pub mod cow;
pub mod modulation;
pub mod rack;
pub mod specifier;
pub mod stream;
pub mod value;

pub use audio::{num_audio_channels, AudioStep};
pub use component::{BasicComponent, Component, GetOutput};
pub use context::{QuickContext, GetInput};
pub use cow::SimpleCow;
pub use modulation::{average_fixed, Lerp};
pub use rack::{ComponentId, Rack, RackError, WireDst, WireSrc};
pub use specifier::{EnumerateValues, RefRuntimeSpecifier, RuntimeSpecifier, SpecId};
pub use stream::{AnyIter, NoIter, PossiblyEither, PossiblyIter, Stream};
pub use value::{Value, ValueKind, ValueType};
