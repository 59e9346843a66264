//! Wire views: the entities as requests and replies carry them.

pub mod area_vo;
pub mod diagram_vo;
pub mod indice_vo;
pub mod note_vo;
pub mod reference_vo;
pub mod table_vo;
pub mod task_vo;

pub use area_vo::AreaVo;
pub use diagram_vo::{DiagramChange, DiagramVo};
pub use indice_vo::IndiceVo;
pub use note_vo::NoteVo;
pub use reference_vo::ReferenceVo;
pub use table_vo::{build_table_link, FieldVo, TableChange, TableVo};
pub use task_vo::{TaskAddVo, TaskChange, TaskUpdateVo, TaskVo};
