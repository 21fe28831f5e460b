use vstd::prelude::*;

verus! {

/// The value of a string of ASCII decimal digits.
pub open spec fn digits_value(s: Seq<char>) -> int
    decreases s.len(),
{
    if s.len() == 0 {
        0
    } else {
        10 * digits_value(s.drop_last()) + (s.last() as int - '0' as int)
    }
}

/// `s` is a non-empty string of ASCII decimal digits.
pub open spec fn is_digits(s: Seq<char>) -> bool {
    s.len() > 0 && forall|i: int| 0 <= i < s.len() ==> '0' <= #[trigger] s[i] && s[i] <= '9'
}

/// The integer that `s` writes in decimal: an optional `+` or `-` sign, then
/// one or more ASCII digits, nothing else.
pub open spec fn decimal_of(s: Seq<char>) -> Option<int> {
    if s.len() > 0 && s[0] == '-' && is_digits(s.drop_first()) {
        Some(-digits_value(s.drop_first()))
    } else if s.len() > 0 && s[0] == '+' && is_digits(s.drop_first()) {
        Some(digits_value(s.drop_first()))
    } else if is_digits(s) {
        Some(digits_value(s))
    } else {
        None
    }
}

/// A longer run of digits never has a smaller value.
proof fn lemma_digits_prefix(s: Seq<char>, i: int)
    requires
        0 <= i < s.len(),
        forall|k: int| 0 <= k < s.len() ==> '0' <= #[trigger] s[k] && s[k] <= '9',
    ensures
        s.subrange(0, i + 1).drop_last() == s.subrange(0, i),
        digits_value(s.subrange(0, i + 1)) == 10 * digits_value(s.subrange(0, i)) + (s[i] as int - '0' as int),
        digits_value(s.subrange(0, i)) >= 0,
{
    assert(s.subrange(0, i + 1).drop_last() =~= s.subrange(0, i));
    lemma_digits_nonneg(s.subrange(0, i));
}

proof fn lemma_digits_nonneg(s: Seq<char>)
    requires
        forall|k: int| 0 <= k < s.len() ==> '0' <= #[trigger] s[k] && s[k] <= '9',
    ensures
        digits_value(s) >= 0,
    decreases s.len(),
{
    if s.len() > 0 {
        assert(forall|k: int| 0 <= k < s.drop_last().len() ==> s.drop_last()[k] == s[k]);
        lemma_digits_nonneg(s.drop_last());
    }
}

/// The value of the digits of `s` from `start` on, if they are one or more
/// ASCII digits and the value is at most `limit`.
fn digits_up_to(s: &str, start: usize, limit: u64) -> (r: Option<u64>)
    requires
        start <= s@.len(),
    ensures
        r matches Some(v) <==> (is_digits(s@.subrange(start as int, s@.len() as int))
            && digits_value(s@.subrange(start as int, s@.len() as int)) <= limit),
        r matches Some(v) ==> v as int == digits_value(s@.subrange(start as int, s@.len() as int)),
{
    let n = s.unicode_len();
    let ghost t = s@.subrange(start as int, s@.len() as int);
    if start >= n {
        return None;
    }
    let mut acc: u64 = 0;
    let mut too_big = false;
    let mut i: usize = start;
    while i < n
        invariant
            n == s@.len(),
            start < n,
            start <= i <= n,
            t == s@.subrange(start as int, n as int),
            forall|k: int| 0 <= k < i - start ==> '0' <= #[trigger] t[k] && t[k] <= '9',
            !too_big ==> acc as int == digits_value(t.subrange(0, i - start)) && acc <= limit,
            too_big ==> digits_value(t.subrange(0, i - start)) > limit,
        decreases n - i,
    {
        let c = s.get_char(i);
        if c < '0' || c > '9' {
            assert(t[i - start] == c);
            return None;
        }
        proof {
            assert(t[i - start] == c);
            let u = t.subrange(0, i - start + 1);
            assert(forall|k: int| 0 <= k < u.len() ==> u[k] == t[k]);
            lemma_digits_prefix(u, i - start);
            assert(u.subrange(0, i - start + 1) =~= u);
            assert(u.subrange(0, i - start) =~= t.subrange(0, i - start));
        }
        let d = (c as u32 - '0' as u32) as u64;
        if !too_big {
            if d > limit {
                too_big = true;
            } else if acc > (limit - d) / 10 {
                too_big = true;
                assert(10 * acc + d > limit) by (nonlinear_arith)
                    requires acc > (limit - d) / 10, d <= 9, d <= limit;
            } else {
                assert(10 * acc + d <= limit) by (nonlinear_arith)
                    requires acc <= (limit - d) / 10, d <= limit;
                acc = 10 * acc + d;
            }
        }
        i += 1;
    }
    assert(t.subrange(0, n - start) =~= t);
    if too_big { None } else { Some(acc) }
}

/// Reads `s` as `<i64 as FromStr>` does: an optional `+` or `-` sign followed
/// by one or more ASCII digits, nothing else, within the range of `i64`.
fn parse_i64(s: &str) -> (r: Option<i64>)
    ensures
        r matches Some(v) <==> (decimal_of(s@) matches Some(d) && i64::MIN <= d <= i64::MAX),
        r matches Some(v) ==> decimal_of(s@) == Some(v as int),
{
    let n = s.unicode_len();
    if n == 0 {
        assert(!is_digits(s@));
        return None;
    }
    let first = s.get_char(0);
    if first == '-' || first == '+' {
        assert(s@.subrange(1, s@.len() as int) =~= s@.drop_first());
        assert(!is_digits(s@)) by { assert(!('0' <= s@[0] && s@[0] <= '9')); }
        if first == '-' {
            match digits_up_to(s, 1, 9223372036854775808u64) {
                Some(v) => {
                    if v == 9223372036854775808u64 {
                        Some(i64::MIN)
                    } else {
                        Some(-(v as i64))
                    }
                },
                None => None,
            }
        } else {
            match digits_up_to(s, 1, 9223372036854775807u64) {
                Some(v) => Some(v as i64),
                None => None,
            }
        }
    } else {
        assert(s@.subrange(0, s@.len() as int) =~= s@);
        match digits_up_to(s, 0, 9223372036854775807u64) {
            Some(v) => Some(v as i64),
            None => None,
        }
    }
}

/// A submitted form of the account's email page.
#[derive(Debug)]
pub enum EmailForm {
    Add { email: String },
    ResendConfirmation { data: String },
    SetPrimary { data: String },
    Remove { data: String },
}

/// What the email page is asked to do, with the email's identifier read.
#[derive(Debug)]
pub enum EmailAction {
    Add { email: String },
    ResendConfirmation { id: i64 },
    SetPrimary { id: i64 },
    Remove { id: i64 },
}

/// Why a form was refused.
#[derive(Clone, Copy, Debug, PartialEq, Eq, Structural)]
pub enum EmailFormError {
    /// The email identifier is not a decimal integer that fits in 64 bits.
    InvalidId,
}

/// The identifier that `data` names, if it is a decimal integer in range.
pub open spec fn email_id_of(data: Seq<char>) -> Option<i64> {
    match decimal_of(data) {
        Some(d) => if i64::MIN <= d <= i64::MAX { Some(d as i64) } else { None },
        None => None,
    }
}

fn email_id(data: &str) -> (r: Result<i64, EmailFormError>)
    ensures
        match email_id_of(data@) {
            Some(id) => r == Ok::<i64, EmailFormError>(id),
            None => r == Err::<i64, EmailFormError>(EmailFormError::InvalidId),
        },
{
    match parse_i64(data) {
        Some(id) => Ok(id),
        None => Err(EmailFormError::InvalidId),
    }
}

/// Reads a submitted form into the action it asks for.
pub fn plan_email_action(form: EmailForm) -> (r: Result<EmailAction, EmailFormError>)
    ensures
        match form {
            EmailForm::Add { email } => r matches Ok(EmailAction::Add { email: e }) && e == email,
            EmailForm::ResendConfirmation { data } => match email_id_of(data@) {
                Some(id) => r matches Ok(EmailAction::ResendConfirmation { id: i }) && i == id,
                None => r == Err::<EmailAction, EmailFormError>(EmailFormError::InvalidId),
            },
            EmailForm::SetPrimary { data } => match email_id_of(data@) {
                Some(id) => r matches Ok(EmailAction::SetPrimary { id: i }) && i == id,
                None => r == Err::<EmailAction, EmailFormError>(EmailFormError::InvalidId),
            },
            EmailForm::Remove { data } => match email_id_of(data@) {
                Some(id) => r matches Ok(EmailAction::Remove { id: i }) && i == id,
                None => r == Err::<EmailAction, EmailFormError>(EmailFormError::InvalidId),
            },
        },
{
    match form {
        EmailForm::Add { email } => Ok(EmailAction::Add { email }),
        EmailForm::ResendConfirmation { data } => match email_id(data.as_str()) {
            Ok(id) => Ok(EmailAction::ResendConfirmation { id }),
            Err(e) => Err(e),
        },
        EmailForm::SetPrimary { data } => match email_id(data.as_str()) {
            Ok(id) => Ok(EmailAction::SetPrimary { id }),
            Err(e) => Err(e),
        },
        EmailForm::Remove { data } => match email_id(data.as_str()) {
            Ok(id) => Ok(EmailAction::Remove { id }),
            Err(e) => Err(e),
        },
    }
}

} // verus!
