//! Pure validation of a poll's candidate option list: count bounds,
//! non-empty names, and uniqueness (case-sensitive, exact match).

use vstd::prelude::*;

use crate::models::ValidationError;

verus! {

/// Some option name in `opts` is empty.
pub open spec fn has_empty_option(opts: Seq<String>) -> bool {
    exists|i: int| 0 <= i < opts.len() && opts[i]@.len() == 0
}

/// Two option names in `opts` are textually equal.
pub open spec fn has_duplicate_option(opts: Seq<String>) -> bool {
    exists|i: int, j: int| 0 <= i < j < opts.len() && opts[i]@ == opts[j]@
}

/// What the validator decides for a given option list. The rules are
/// checked in a fixed order, first failure wins: count bounds, then
/// empty names, then duplicates.
pub open spec fn spec_validate_options(opts: Seq<String>) -> Result<(), ValidationError> {
    if opts.len() < 2 {
        Err(ValidationError::TooFewOptions)
    } else if opts.len() > 10 {
        Err(ValidationError::TooManyOptions)
    } else if has_empty_option(opts) {
        Err(ValidationError::EmptyOptionName)
    } else if has_duplicate_option(opts) {
        Err(ValidationError::DuplicateOptionNames)
    } else {
        Ok(())
    }
}

/// Decides whether `poll_options` is an acceptable option list for a new
/// poll, and if not, why not. Pure: no side effects on any state.
pub fn are_poll_options_valid(poll_options: &Vec<String>) -> (r: Result<(), ValidationError>)
    ensures
        r == spec_validate_options(poll_options@),
{
    if poll_options.len() < 2 {
        return Err(ValidationError::TooFewOptions);
    }
    if poll_options.len() > 10 {
        return Err(ValidationError::TooManyOptions);
    }
    let n = poll_options.len();
    let mut i: usize = 0;
    while i < n
        invariant
            n == poll_options@.len(),
            2 <= n <= 10,
            0 <= i <= n,
            forall|k: int| 0 <= k < i ==> #[trigger] poll_options@[k]@.len() != 0,
        decreases n - i,
    {
        if poll_options[i].as_str().is_empty() {
            proof {
                let wi = i as int;
                assert(0 <= wi < poll_options@.len() && poll_options@[wi]@.len() == 0);
                assert(has_empty_option(poll_options@));
            }
            return Err(ValidationError::EmptyOptionName);
        }
        i += 1;
    }
    let mut i: usize = 0;
    while i < n
        invariant
            n == poll_options@.len(),
            2 <= n <= 10,
            0 <= i <= n,
            forall|k: int, l: int|
                0 <= k < i && k < l < n ==> #[trigger] poll_options@[k]@ != #[trigger] poll_options@[l]@,
            !has_empty_option(poll_options@),
        decreases n - i,
    {
        let mut j: usize = i + 1;
        while j < n
            invariant
                n == poll_options@.len(),
                2 <= n <= 10,
                0 <= i < j <= n,
                !has_empty_option(poll_options@),
                forall|l: int| i < l < j ==> #[trigger] poll_options@[l]@ != poll_options@[i as int]@,
            decreases n - j,
        {
            if poll_options[i] == poll_options[j] {
                proof {
                    let wi = i as int;
                    let wj = j as int;
                    assert(0 <= wi < wj < poll_options@.len()
                        && poll_options@[wi]@ == poll_options@[wj]@);
                    assert(has_duplicate_option(poll_options@));
                }
                return Err(ValidationError::DuplicateOptionNames);
            }
            j += 1;
        }
        i += 1;
    }
    Ok(())
}

/// A list with fewer than two or more than ten options is always
/// rejected, whatever its contents.
pub proof fn lemma_validator_rejects_bad_count(opts: Seq<String>)
    requires
        opts.len() < 2 || opts.len() > 10,
    ensures
        spec_validate_options(opts) is Err,
        opts.len() < 2 ==> spec_validate_options(opts) == Err::<(), ValidationError>(
            ValidationError::TooFewOptions,
        ),
        opts.len() > 10 ==> spec_validate_options(opts) == Err::<(), ValidationError>(
            ValidationError::TooManyOptions,
        ),
{
}

/// A list holding any two textually equal entries is always rejected.
pub proof fn lemma_validator_rejects_duplicates(opts: Seq<String>)
    requires
        has_duplicate_option(opts),
    ensures
        spec_validate_options(opts) is Err,
{
}

/// A list of two to ten distinct, non-empty entries is always accepted.
pub proof fn lemma_validator_accepts_distinct(opts: Seq<String>)
    requires
        2 <= opts.len() <= 10,
        !has_empty_option(opts),
        !has_duplicate_option(opts),
    ensures
        spec_validate_options(opts) == Ok::<(), ValidationError>(()),
{
}

} // verus!
