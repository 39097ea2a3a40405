//! Display numbers: which are in use, and the search for a free one.

use vstd::prelude::*;
use vstd::string::*;

use crate::error::{ManagerError, ManagerErrorView};
use crate::text::{decimal, format_decimal, join};

verus! {

/// The path of the lock file that a display server keeps while it serves
/// display `num`.
pub open spec fn lock_path_text(num: u32) -> Seq<char> {
    "/tmp/.X"@ + decimal(num as nat) + "-lock"@
}

/// The name by which clients address display `num`.
pub open spec fn display_name_text(num: u32) -> Seq<char> {
    ":"@ + decimal(num as nat)
}

/// The path of the lock file that a display server keeps while it serves
/// display `display_num`.
pub fn display_lock_path(display_num: u32) -> (r: String)
    ensures
        r@ == lock_path_text(display_num),
{
    let number = format_decimal(display_num as u64);
    let head = join("/tmp/.X", number.as_str());
    join(head.as_str(), "-lock")
}

/// The name by which clients address display `display_num`: a colon and the
/// number.
pub fn display_name(display_num: u32) -> (r: String)
    ensures
        r@ == display_name_text(display_num),
{
    let number = format_decimal(display_num as u64);
    join(":", number.as_str())
}

/// Whether anything exists at `path`. Calls `Path::exists` of std, which asks
/// the file system; the answer may differ from one call to the next, so
/// nothing is claimed of it.
#[verifier::external_body]
fn path_exists(path: &str) -> bool {
    std::path::Path::new(path).exists()
}

/// Whether display `display_num` is in use on this host: whether its lock file
/// exists at this moment.
pub fn is_display_in_use(display_num: u32) -> bool {
    let lock_file = display_lock_path(display_num);
    path_exists(lock_file.as_str())
}

/// The first display number at or above `start` that `in_use` reports free,
/// asking about one number after the other: every number from `start` up to
/// the result was reported in use, and the result was reported free. The top
/// of the range is never asked about nor handed out, so that the number after
/// a result always exists. The search fails with `ResourceExhausted` where
/// every number from `start` up to the top was reported in use, or `start` is
/// the top itself.
pub fn first_free_display<F: Fn(u32) -> bool>(start: u32, in_use: F) -> (r: Result<
    u32,
    ManagerError,
>)
    requires
        forall|num: u32| call_requires(in_use, (num,)),
    ensures
        match r {
            Ok(num) => {
                &&& start <= num < u32::MAX
                &&& call_ensures(in_use, (num,), false)
                &&& forall|k: u32| start <= k < num ==> call_ensures(in_use, (k,), true)
            },
            Err(e) => {
                &&& e@ == ManagerErrorView::ResourceExhausted
                &&& forall|k: u32| start <= k < u32::MAX ==> call_ensures(in_use, (k,), true)
            },
        },
{
    let mut num: u32 = start;
    while num < u32::MAX
        invariant
            start <= num,
            forall|n: u32| call_requires(in_use, (n,)),
            forall|k: u32| start <= k < num ==> call_ensures(in_use, (k,), true),
        decreases u32::MAX - num,
    {
        if !in_use(num) {
            return Ok(num);
        }
        num = num + 1;
    }
    Err(ManagerError::ResourceExhausted)
}

/// The first display number at or above `start` that is found free on this
/// host, by [`first_free_display`] with a look at the lock file of each
/// number. What the host answers is not for this library to say: the result
/// lies at or above `start` and below the top of the range, and a search from
/// the top fails.
pub fn allocate_display(start: u32) -> (r: Result<u32, ManagerError>)
    ensures
        r matches Ok(num) ==> start <= num < u32::MAX,
        r matches Err(e) ==> e@ == ManagerErrorView::ResourceExhausted,
        start == u32::MAX ==> r is Err,
{
    first_free_display(start, is_display_in_use)
}

} // verus!
