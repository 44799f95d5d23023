//! Decoding of a Firebird "prepare statement" response into column
//! descriptors, and encoding of those descriptors into the BLR message that
//! tells the server how rows are laid out.

pub mod blr;
pub mod buf;
pub mod ibase;
pub mod laws;
pub mod prepare;
pub mod response;
pub mod row;
pub mod status;
pub mod text;
pub mod xsqlda;

pub use ibase::StmtType;
pub use prepare::{parse_xsqlda, PrepareInfo};
pub use row::ColumnType;
pub use status::{
    err_buffer_len, err_column_null, err_idx_not_exist, err_type_conv, FbError, InvalidReason,
    SqlError,
};
pub use xsqlda::{xsqlda_to_blr, XSqlVar, XSQLDA_DESCRIBE_VARS};
