use vstd::prelude::*;

verus! {

/// Default bound on concurrently queued command batches when no override is
/// given.
pub const DEFAULT_MAX_TASKS: usize = 64;

/// The task-bound override was present but is not a positive integer.
#[derive(Debug)]
pub struct ConfigFailure {
    /// The offending override text, kept verbatim for the diagnostic.
    pub given: String,
}

/// A decimal digit, as a character.
pub open spec fn is_ascii_digit(c: char) -> bool {
    48 <= c as int <= 57
}

pub open spec fn all_ascii_digits(s: Seq<char>) -> bool {
    forall|i: int| 0 <= i < s.len() ==> is_ascii_digit(s[i])
}

/// Numeric value of a digit string, most significant digit first.
pub open spec fn digits_value(s: Seq<char>) -> int
    decreases s.len(),
{
    if s.len() == 0 {
        0
    } else {
        10 * digits_value(s.drop_last()) + (s.last() as int - 48)
    }
}

/// A usable override: non-empty, all digits, positive, and within the
/// machine's word size.
pub open spec fn valid_max_tasks_text(s: Seq<char>) -> bool {
    &&& all_ascii_digits(s)
    &&& 1 <= digits_value(s) <= usize::MAX
}

/// The task bound that a given override text (or its absence) dictates, or
/// `None` when the text is not a usable override.
pub open spec fn spec_max_tasks(o: Option<Seq<char>>) -> Option<int> {
    match o {
        None => Some(64),
        Some(s) => if valid_max_tasks_text(s) {
            Some(digits_value(s))
        } else {
            None
        },
    }
}

proof fn lemma_digits_value_nonneg(s: Seq<char>)
    requires
        all_ascii_digits(s),
    ensures
        digits_value(s) >= 0,
    decreases s.len(),
{
    if s.len() > 0 {
        assert(all_ascii_digits(s.drop_last())) by {
            assert(forall|i: int|
                0 <= i < s.drop_last().len() ==> s.drop_last()[i] == s[i] && is_ascii_digit(
                    s[i],
                ));
        }
        lemma_digits_value_nonneg(s.drop_last());
    }
}

/// Extending a digit string to the right never lowers its value.
proof fn lemma_digits_value_prefix_le(s: Seq<char>, k: int)
    requires
        all_ascii_digits(s),
        0 <= k <= s.len(),
    ensures
        digits_value(s.subrange(0, k)) <= digits_value(s),
    decreases s.len() - k,
{
    if k < s.len() {
        let t = s.subrange(0, k + 1);
        assert(t.drop_last() =~= s.subrange(0, k));
        assert(all_ascii_digits(s.subrange(0, k))) by {
            assert(forall|i: int|
                0 <= i < k ==> s.subrange(0, k)[i] == s[i] && is_ascii_digit(s[i]));
        }
        lemma_digits_value_nonneg(s.subrange(0, k));
        assert(digits_value(t) == 10 * digits_value(s.subrange(0, k)) + (s[k] as int - 48));
        assert(digits_value(s.subrange(0, k)) <= digits_value(t));
        lemma_digits_value_prefix_le(s, k + 1);
    } else {
        assert(s.subrange(0, k) =~= s);
    }
}

/// Parse a task-bound override. Returns the parsed bound exactly when the
/// text is a positive decimal integer that fits the machine word; any other
/// text is rejected with the text preserved for the diagnostic.
pub fn parse_max_tasks(text: &str) -> (r: Result<usize, ConfigFailure>)
    ensures
        match r {
            Ok(n) => valid_max_tasks_text(text@) && n == digits_value(text@),
            Err(e) => !valid_max_tasks_text(text@) && e.given@ == text@,
        },
{
    let n = text.unicode_len();
    let mut i: usize = 0;
    let mut acc: u128 = 0;
    let bound: u128 = usize::MAX as u128;
    while i < n
        invariant
            0 <= i <= n,
            n == text@.len(),
            all_ascii_digits(text@.subrange(0, i as int)),
            acc == digits_value(text@.subrange(0, i as int)),
            acc <= bound,
            bound == usize::MAX as u128,
        decreases n - i,
    {
        let c = text.get_char(i);
        let code: u32 = c as u32;
        if code < 48 || code > 57 {
            assert(!is_ascii_digit(text@[i as int]));
            assert(!all_ascii_digits(text@));
            return Err(ConfigFailure { given: text.to_owned() });
        }
        let d: u128 = (code - 48) as u128;
        let next: u128 = acc * 10 + d;
        proof {
            let pre = text@.subrange(0, i as int);
            let cur = text@.subrange(0, i as int + 1);
            assert(cur.drop_last() =~= pre);
            assert(cur.last() == text@[i as int]);
            assert(digits_value(cur) == 10 * digits_value(pre) + (text@[i as int] as int - 48));
            assert(forall|j: int| 0 <= j < cur.len() ==> cur[j] == text@[j]);
        }
        if next > bound {
            proof {
                if all_ascii_digits(text@) {
                    lemma_digits_value_prefix_le(text@, i as int + 1);
                }
            }
            return Err(ConfigFailure { given: text.to_owned() });
        }
        acc = next;
        i = i + 1;
    }
    assert(text@.subrange(0, n as int) =~= text@);
    if acc == 0 {
        return Err(ConfigFailure { given: text.to_owned() });
    }
    Ok(acc as usize)
}

/// Resolve the bound on in-flight tasks from an optional override, typically
/// an environment variable read by the embedding program. Absence means the
/// default of 64; a present override must be a positive integer or the
/// configuration is rejected outright.
pub fn max_in_flight_tasks(override_text: Option<&str>) -> (r: Result<usize, ConfigFailure>)
    ensures
        match r {
            Ok(n) => {
                &&& spec_max_tasks(spec_override_view(override_text)) == Some(n as int)
                &&& n >= 1
            },
            Err(e) => {
                &&& spec_max_tasks(spec_override_view(override_text)) is None
                &&& override_text matches Some(t) && e.given@ == t@
            },
        },
{
    match override_text {
        None => Ok(DEFAULT_MAX_TASKS),
        Some(text) => parse_max_tasks(text),
    }
}

/// The override as a sequence of characters, when present.
pub open spec fn spec_override_view(o: Option<&str>) -> Option<Seq<char>> {
    match o {
        None => None,
        Some(t) => Some(t@),
    }
}

} // verus!
