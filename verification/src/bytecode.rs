//! The bytecode format: instructions, values, chunks and the tables that the
//! compiler and the virtual machine share.
pub mod chunk;
pub mod number;
pub mod obj;
pub mod opcode;
pub mod strings;
pub mod value;
pub mod variables;

pub use chunk::{Chunk, Code, LineInfoArray};
pub use number::Number;
pub use obj::Obj;
pub use opcode::Opcode;
pub use strings::{get_or_insert_string, InternMap};
pub use value::{ConstantPointer, Value, ValueArray, ValueView};
pub use variables::{GlobalMap, Local, LocalError, LocalMap};
