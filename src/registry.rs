use vstd::prelude::*;
use vstd::string::*;

verus! {

/// No two entries of `s` are equal.
pub open spec fn all_distinct(s: Seq<Seq<char>>) -> bool {
    forall|i: int, j: int| 0 <= i < s.len() && 0 <= j < s.len() && i != j ==> s[i] != s[j]
}

/// A token or identifier was already issued.
#[derive(Clone, Copy, Debug, PartialEq, Eq, Structural)]
pub struct DuplicateToken;

/// The issued tokens of one kind, in the order they were recorded: the
/// uniqueness backstop that stands behind random generation.
#[derive(Debug)]
pub struct IssuedTokens {
    tokens: Vec<String>,
}

impl View for IssuedTokens {
    type V = Seq<Seq<char>>;

    closed spec fn view(&self) -> Seq<Seq<char>> {
        self.tokens@.map_values(|t: String| t@)
    }
}

impl IssuedTokens {
    pub open spec fn wf(&self) -> bool {
        all_distinct(self@)
    }

    /// An empty record.
    pub fn new() -> (r: IssuedTokens)
        ensures
            r.wf(),
            r@ == Seq::<Seq<char>>::empty(),
    {
        let r = IssuedTokens { tokens: Vec::new() };
        assert(r@ =~= Seq::<Seq<char>>::empty());
        r
    }

    pub fn len(&self) -> (r: usize)
        ensures
            r == self@.len(),
    {
        self.tokens.len()
    }

    /// Whether `token` was issued.
    pub fn contains(&self, token: &str) -> (r: bool)
        ensures
            r == self@.contains(token@),
    {
        let wanted = String::from_str(token);
        let mut i: usize = 0;
        while i < self.tokens.len()
            invariant
                wanted@ == token@,
                i <= self.tokens@.len(),
                forall|j: int| 0 <= j < i ==> self@[j] != token@,
            decreases self.tokens@.len() - i,
        {
            if self.tokens[i] == wanted {
                assert(self@[i as int] == token@);
                return true;
            }
            i += 1;
        }
        false
    }

    /// Records `token` unless it was already issued.
    pub fn record(&mut self, token: String) -> (r: Result<(), DuplicateToken>)
        requires
            old(self).wf(),
        ensures
            final(self).wf(),
            r.is_ok() == !old(self)@.contains(token@),
            r.is_ok() ==> final(self)@ == old(self)@.push(token@),
            r.is_err() ==> final(self)@ == old(self)@,
    {
        if self.contains(token.as_str()) {
            return Err(DuplicateToken);
        }
        let ghost before = self@;
        let ghost tv = token@;
        self.tokens.push(token);
        assert(self@ =~= before.push(tv));
        Ok(())
    }
}

/// A record stays free of repeats after a token is appended exactly when the
/// token was not in it: the backstop refuses every repeat and only repeats.
pub proof fn lemma_issued_unique(issued: IssuedTokens, token: Seq<char>)
    requires
        issued.wf(),
    ensures
        all_distinct(issued@.push(token)) <==> !issued@.contains(token),
{
    let s = issued@.push(token);
    if issued@.contains(token) {
        let k = choose|k: int| 0 <= k < issued@.len() && issued@[k] == token;
        assert(s[k] == s[issued@.len() as int]);
    } else {
        assert forall|i: int, j: int| 0 <= i < s.len() && 0 <= j < s.len() && i != j implies s[i] != s[j] by {
            if i < issued@.len() && j < issued@.len() {
                assert(s[i] == issued@[i] && s[j] == issued@[j]);
            } else if i < issued@.len() {
                assert(s[i] == issued@[i]);
            } else if j < issued@.len() {
                assert(s[j] == issued@[j]);
            }
        }
    }
}

} // verus!
