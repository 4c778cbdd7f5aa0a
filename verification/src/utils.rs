//! The helpers of the binding: status checks, ranking of scores and layout
//! conversion.
pub use crate::layout::convert_layout_from_nhwc_to_nchw;
pub use crate::ranking::argmax;
pub use crate::status::{check_status, check_status_with_error_message, classify_status};
