//! The envelope the read-only query surface wraps its answers in.

use vstd::prelude::*;

verus! {

/// A response envelope: a status code, a human-readable message, and the
/// payload.
#[derive(Debug)]
pub struct Response<T> {
    pub code: i32,
    pub message: String,
    pub data: T,
}

impl<T> Response<T> {
    pub fn new(code: i32, message: String, data: T) -> (r: Response<T>)
        ensures
            r.code == code,
            r.message == message,
            r.data == data,
    {
        Response { code, message, data }
    }

    /// The success envelope: code zero and the message "success".
    pub fn success(data: T) -> (r: Response<T>)
        ensures
            r.code == 0,
            r.message@ == "success"@,
            r.data == data,
    {
        Response::new(0, String::from_str("success"), data)
    }
}

} // verus!
