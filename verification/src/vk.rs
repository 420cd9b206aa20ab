//! Result codes of Vulkan commands.
use vstd::prelude::*;

verus! {

/// A `VkResult` code: 0 is success, positive codes are other successes, negative codes
/// are errors.
#[derive(Debug, Clone, Copy, PartialEq, Eq, Structural)]
pub struct Result(pub i32);

/// `Ok` with the value on success, `Err` with the code otherwise.
pub type VkResult<T> = core::result::Result<T, Result>;

impl Result {
    pub open spec fn spec_success() -> Result {
        Result(0)
    }

    /// `VK_SUCCESS`.
    pub fn success() -> (r: Result)
        ensures
            r == Result::spec_success(),
    {
        Result(0)
    }

    /// `VK_INCOMPLETE`: a success code that says not all results were returned.
    pub fn incomplete() -> (r: Result)
        ensures
            r == Result(5),
    {
        Result(5)
    }

    /// `Ok(())` on `VK_SUCCESS`, the code as the error otherwise.
    pub fn result(self) -> (r: VkResult<()>)
        ensures
            r == (if self == Result::spec_success() {
                Ok::<(), Result>(())
            } else {
                Err::<(), Result>(self)
            }),
    {
        self.result_with_success(())
    }

    /// `Ok(v)` on `VK_SUCCESS`, the code as the error otherwise.
    pub fn result_with_success<T>(self, v: T) -> (r: VkResult<T>)
        ensures
            self == Result::spec_success() ==> r == Ok::<T, Result>(v),
            self != Result::spec_success() ==> r == Err::<T, Result>(self),
    {
        if self.0 == 0 {
            Ok(v)
        } else {
            Err(self)
        }
    }
}

/// The decision after the call that fills a vector of results: `None` to start again
/// from the count query, where the call returned `VK_INCOMPLETE` (the count grew in
/// between); otherwise the outcome, `Ok(())` on `VK_SUCCESS` and the code as the error on
/// any other code.
pub fn read_step(err_code: Result) -> (r: Option<VkResult<()>>)
    ensures
        err_code == Result(5) ==> r is None,
        err_code != Result(5) ==> r == Some(
            if err_code == Result::spec_success() {
                Ok::<(), Result>(())
            } else {
                Err::<(), Result>(err_code)
            },
        ),
{
    if err_code.0 == 5 {
        None
    } else {
        Some(err_code.result())
    }
}

} // verus!
