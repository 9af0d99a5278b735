//! Tag-length-value codec.
//!
//! A head byte carries the tag in its high nibble and the type code in its
//! low nibble; tags of 15 and above take a second byte. Integers are written
//! in the smallest type that holds them, and zero takes no payload at all.

pub mod buffer;
pub mod decode;
pub mod laws;
pub mod raw;
pub mod reader;
pub mod string_map;
pub mod traits;
pub mod types;
pub mod wire;

pub use buffer::Buffer;
pub use reader::Reader;
pub use string_map::StringMap;
pub use traits::{TarsDecode, TarsEncode, TarsStruct};
pub use types::{parse_package, Head, PackageStatus, TarsType};
