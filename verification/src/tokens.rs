//! Cohort admission tokens.
//!
//! The ceremony timeline is partitioned into cohorts, each with a set of
//! one-time admission tokens. A token is valid iff it is 20 hexadecimal
//! digits and is present in the current cohort's set. When the archive is
//! replaced, the set of the current cohort must stay exactly what it was:
//! past cohorts are ignored, future ones may change freely.

use vstd::prelude::*;
use vstd::string::StrSliceExecFns;

use crate::errors::ResponseError;

verus! {

/// Whether a character is a hexadecimal digit.
pub open spec fn is_hex_digit(c: char) -> bool {
    (48 <= c as u32 && c as u32 <= 57)  // '0'..='9'
     || (65 <= c as u32 && c as u32 <= 70)  // 'A'..='F'
     || (97 <= c as u32 && c as u32 <= 102)  // 'a'..='f'

}

/// Whether a text is a well-formed admission token: exactly 20 hexadecimal
/// digits.
pub open spec fn spec_token_format(s: Seq<char>) -> bool {
    s.len() == 20 && (forall|i: int| 0 <= i < s.len() ==> is_hex_digit(#[trigger] s[i]))
}

/// Checks that a token is exactly 20 hexadecimal digits.
pub fn check_token_format(token: &str) -> (r: bool)
    ensures
        r == spec_token_format(token@),
{
    let len = token.unicode_len();
    if len != 20 {
        return false;
    }
    let mut i: usize = 0;
    while i < len
        invariant
            0 <= i <= len,
            len == token@.len(),
            forall|j: int| 0 <= j < i ==> is_hex_digit(#[trigger] token@[j]),
        decreases len - i,
    {
        let u = token.get_char(i) as u32;
        if !((48 <= u && u <= 57) || (65 <= u && u <= 70) || (97 <= u && u <= 102)) {
            return false;
        }
        i += 1;
    }
    true
}

/// The set of token texts held by a cohort.
pub open spec fn spec_token_set(tokens: Seq<String>) -> Set<Seq<char>> {
    Set::new(|t: Seq<char>| exists|i: int| 0 <= i < tokens.len() && tokens[i]@ == t)
}

fn contains_token(tokens: &Vec<String>, token: &String) -> (r: bool)
    ensures
        r == spec_token_set(tokens@).contains(token@),
{
    let n = tokens.len();
    let mut i: usize = 0;
    while i < n
        invariant
            0 <= i <= n,
            n == tokens@.len(),
            forall|j: int| 0 <= j < i ==> tokens@[j]@ != token@,
        decreases n - i,
    {
        if tokens[i].eq(token) {
            return true;
        }
        i += 1;
    }
    false
}

/// Whether every token of `a` is in the set of `b`.
fn all_contained(a: &Vec<String>, b: &Vec<String>) -> (r: bool)
    ensures
        r == (forall|i: int|
            0 <= i < a@.len() ==> spec_token_set(b@).contains(#[trigger] a@[i]@)),
{
    let n = a.len();
    let mut i: usize = 0;
    while i < n
        invariant
            0 <= i <= n,
            n == a@.len(),
            forall|j: int| 0 <= j < i ==> spec_token_set(b@).contains(#[trigger] a@[j]@),
        decreases n - i,
    {
        if !contains_token(b, &a[i]) {
            return false;
        }
        i += 1;
    }
    true
}

/// Mutual inclusion of two token lists makes their token sets equal.
proof fn lemma_mutual_inclusion(a: Seq<String>, b: Seq<String>)
    requires
        forall|i: int| 0 <= i < a.len() ==> spec_token_set(b).contains(#[trigger] a[i]@),
        forall|i: int| 0 <= i < b.len() ==> spec_token_set(a).contains(#[trigger] b[i]@),
    ensures
        spec_token_set(a) == spec_token_set(b),
{
    assert forall|t: Seq<char>| spec_token_set(a).contains(t) implies spec_token_set(b).contains(
        t,
    ) by {
        let i = choose|i: int| 0 <= i < a.len() && a[i]@ == t;
        assert(spec_token_set(b).contains(a[i]@));
    }
    assert forall|t: Seq<char>| spec_token_set(b).contains(t) implies spec_token_set(a).contains(
        t,
    ) by {
        let i = choose|i: int| 0 <= i < b.len() && b[i]@ == t;
        assert(spec_token_set(a).contains(b[i]@));
    }
    assert(spec_token_set(a) =~= spec_token_set(b));
}

/// Token lists with equal token sets include each other's members.
proof fn lemma_set_equal_includes(a: Seq<String>, b: Seq<String>)
    requires
        spec_token_set(a) == spec_token_set(b),
    ensures
        forall|i: int| 0 <= i < a.len() ==> spec_token_set(b).contains(#[trigger] a[i]@),
        forall|i: int| 0 <= i < b.len() ==> spec_token_set(a).contains(#[trigger] b[i]@),
{
    assert forall|i: int| 0 <= i < a.len() implies spec_token_set(b).contains(
        #[trigger] a[i]@,
    ) by {
        assert(spec_token_set(a).contains(a[i]@));
    }
    assert forall|i: int| 0 <= i < b.len() implies spec_token_set(a).contains(
        #[trigger] b[i]@,
    ) by {
        assert(spec_token_set(b).contains(b[i]@));
    }
}

/// The in-memory token archive: one token list per cohort, and the index of
/// the cohort currently admitting.
pub struct TokenStore {
    pub cohorts: Vec<Vec<String>>,
    pub current_cohort: usize,
}

impl TokenStore {
    pub fn new(cohorts: Vec<Vec<String>>, current_cohort: usize) -> (r: TokenStore)
        ensures
            r.cohorts == cohorts,
            r.current_cohort == current_cohort,
    {
        TokenStore { cohorts, current_cohort }
    }

    /// The index of the cohort currently admitting contributors.
    pub fn get_cohort(&self) -> (r: usize)
        ensures
            r == self.current_cohort,
    {
        self.current_cohort
    }

    /// The token list of a cohort; none when the ceremony has ended beyond
    /// this index.
    pub fn tokens(&self, cohort: usize) -> (r: Option<&Vec<String>>)
        ensures
            r is Some <==> cohort < self.cohorts@.len(),
            r is Some ==> r->Some_0 == self.cohorts@[cohort as int],
    {
        if cohort < self.cohorts.len() {
            Some(&self.cohorts[cohort])
        } else {
            None
        }
    }

    /// Checks the validity of an admission token for the ceremony.
    ///
    /// Accepts exactly the well-formed tokens that are in the current
    /// cohort's set; a malformed token, an exhausted cohort list and an
    /// unknown token are distinct failures.
    pub fn check_token(&self, token: &String) -> (r: Result<(), ResponseError>)
        ensures
            r is Ok <==> spec_token_format(token@) && self.current_cohort < self.cohorts@.len()
                && spec_token_set(self.cohorts@[self.current_cohort as int]@).contains(token@),
            r is Err ==> match r->Err_0 {
                ResponseError::InvalidTokenFormat => !spec_token_format(token@),
                ResponseError::CeremonyIsOver => spec_token_format(token@) && self.current_cohort
                    >= self.cohorts@.len(),
                ResponseError::InvalidToken(c) => c == self.current_cohort && spec_token_format(
                    token@,
                ) && self.current_cohort < self.cohorts@.len() && !spec_token_set(
                    self.cohorts@[self.current_cohort as int]@,
                ).contains(token@),
                _ => false,
            },
    {
        if !check_token_format(token.as_str()) {
            return Err(ResponseError::InvalidTokenFormat);
        }
        let cohort = self.current_cohort;
        let tokens = match self.tokens(cohort) {
            Some(t) => t,
            None => {
                return Err(ResponseError::CeremonyIsOver);
            },
        };
        if !contains_token(tokens, token) {
            return Err(ResponseError::InvalidToken(cohort));
        }
        Ok(())
    }

    /// Checks whether a new archive would be accepted, without changing
    /// anything: the new archive must still have a list for the current
    /// cohort and its token set must equal the current one.
    pub fn check_new_tokens(&self, new_cohorts: &Vec<Vec<String>>) -> (r: Result<
        (),
        ResponseError,
    >)
        ensures
            ({
                let cc = self.current_cohort as int;
                &&& r is Ok <==> cc < self.cohorts@.len() && cc < new_cohorts@.len()
                    && spec_token_set(new_cohorts@[cc]@) == spec_token_set(self.cohorts@[cc]@)
                &&& r is Err ==> match r->Err_0 {
                    ResponseError::CeremonyIsOver => cc >= self.cohorts@.len(),
                    ResponseError::InvalidNewTokens => cc < self.cohorts@.len() && (cc
                        >= new_cohorts@.len() || spec_token_set(new_cohorts@[cc]@)
                        != spec_token_set(self.cohorts@[cc]@)),
                    _ => false,
                }
            }),
    {
        let cc = self.current_cohort;
        if cc >= self.cohorts.len() {
            return Err(ResponseError::CeremonyIsOver);
        }
        if cc >= new_cohorts.len() {
            return Err(ResponseError::InvalidNewTokens);
        }
        let old_list = &self.cohorts[cc];
        let new_list = &new_cohorts[cc];
        if all_contained(new_list, old_list) && all_contained(old_list, new_list) {
            proof {
                lemma_mutual_inclusion(new_cohorts@[cc as int]@, self.cohorts@[cc as int]@);
            }
            Ok(())
        } else {
            proof {
                if spec_token_set(new_cohorts@[cc as int]@) == spec_token_set(
                    self.cohorts@[cc as int]@,
                ) {
                    lemma_set_equal_includes(new_cohorts@[cc as int]@, self.cohorts@[cc as int]@);
                }
            }
            Err(ResponseError::InvalidNewTokens)
        }
    }

    /// Replaces the token archive.
    ///
    /// The update is accepted exactly when the new archive still has a list
    /// for the current cohort and its token set equals the current one;
    /// then the whole archive is replaced and the current cohort's set is
    /// unchanged. On failure nothing changes.
    pub fn update_tokens(&mut self, new_cohorts: Vec<Vec<String>>) -> (r: Result<
        (),
        ResponseError,
    >)
        ensures
            ({
                let cc = old(self).current_cohort as int;
                &&& r is Ok <==> cc < old(self).cohorts@.len() && cc < new_cohorts@.len()
                    && spec_token_set(new_cohorts@[cc]@) == spec_token_set(old(self).cohorts@[cc]@)
                &&& r is Ok ==> final(self).cohorts@ == new_cohorts@ && final(self).current_cohort
                    == old(self).current_cohort && spec_token_set(final(self).cohorts@[cc]@)
                    == spec_token_set(old(self).cohorts@[cc]@)
                &&& r is Err ==> *final(self) == *old(self) && match r->Err_0 {
                    ResponseError::CeremonyIsOver => cc >= old(self).cohorts@.len(),
                    ResponseError::InvalidNewTokens => cc < old(self).cohorts@.len() && (cc
                        >= new_cohorts@.len() || spec_token_set(new_cohorts@[cc]@)
                        != spec_token_set(old(self).cohorts@[cc]@)),
                    _ => false,
                }
            }),
    {
        let cc = self.current_cohort;
        if cc >= self.cohorts.len() {
            return Err(ResponseError::CeremonyIsOver);
        }
        if cc >= new_cohorts.len() {
            return Err(ResponseError::InvalidNewTokens);
        }
        let old_list = &self.cohorts[cc];
        let new_list = &new_cohorts[cc];
        if all_contained(new_list, old_list) && all_contained(old_list, new_list) {
            proof {
                lemma_mutual_inclusion(new_cohorts@[cc as int]@, self.cohorts@[cc as int]@);
            }
            self.cohorts = new_cohorts;
            Ok(())
        } else {
            proof {
                if spec_token_set(new_cohorts@[cc as int]@) == spec_token_set(
                    self.cohorts@[cc as int]@,
                ) {
                    lemma_set_equal_includes(new_cohorts@[cc as int]@, self.cohorts@[cc as int]@);
                }
            }
            Err(ResponseError::InvalidNewTokens)
        }
    }
}

} // verus!
