use vstd::prelude::*;

verus! {

/// Answer to a `GETTRAILER` request.
#[derive(Debug, Clone)]
pub struct GetTrailerRes {
    /// Host; `h` on the wire.
    pub host: String,
    /// Port; `p` on the wire.
    pub port: i32,
    /// Virtual host; `vh` on the wire.
    pub vhost: String,
    /// Virtual host over IPv6; `vh6` on the wire.
    pub vhost6: i32,
}

} // verus!
