//! Ceremony participants.
//!
//! A participant is an identity derived from a public verification key and is
//! either a contributor or a verifier. Equality is by (kind, key); the view of
//! a participant is exactly that pair, and every contract about membership in
//! the coordinator's state speaks of views.

use vstd::prelude::*;

verus! {

/// An identity in the ceremony: a contributor or a verifier, named by the
/// text of its public key.
#[derive(Debug)]
pub enum Participant {
    Contributor(String),
    Verifier(String),
}

impl View for Participant {
    /// (is-contributor, public key text)
    type V = (bool, Seq<char>);

    open spec fn view(&self) -> (bool, Seq<char>) {
        match self {
            Participant::Contributor(s) => (true, s@),
            Participant::Verifier(s) => (false, s@),
        }
    }
}

impl Participant {
    /// Creates a contributor identity from its public key.
    pub fn new_contributor(pubkey: &str) -> (r: Participant)
        ensures
            r@ == (true, pubkey@),
    {
        Participant::Contributor(pubkey.to_owned())
    }

    /// Creates a verifier identity from its public key.
    pub fn new_verifier(pubkey: &str) -> (r: Participant)
        ensures
            r@ == (false, pubkey@),
    {
        Participant::Verifier(pubkey.to_owned())
    }

    /// The public key text of the participant.
    pub fn address(&self) -> (r: &String)
        ensures
            r@ == self@.1,
    {
        match self {
            Participant::Contributor(s) => s,
            Participant::Verifier(s) => s,
        }
    }

    /// Whether the participant is a contributor.
    pub fn is_contributor(&self) -> (r: bool)
        ensures
            r == self@.0,
    {
        match self {
            Participant::Contributor(_) => true,
            Participant::Verifier(_) => false,
        }
    }
}

impl Clone for Participant {
    fn clone(&self) -> (r: Self)
        ensures
            r@ == self@,
    {
        match self {
            Participant::Contributor(s) => Participant::Contributor(s.clone()),
            Participant::Verifier(s) => Participant::Verifier(s.clone()),
        }
    }
}

impl PartialEq for Participant {
    fn eq(&self, other: &Self) -> (r: bool) {
        match (self, other) {
            (Participant::Contributor(a), Participant::Contributor(b)) => a.eq(b),
            (Participant::Verifier(a), Participant::Verifier(b)) => a.eq(b),
            _ => false,
        }
    }
}

impl vstd::std_specs::cmp::PartialEqSpecImpl for Participant {
    open spec fn obeys_eq_spec() -> bool {
        true
    }

    open spec fn eq_spec(&self, other: &Self) -> bool {
        self@ == other@
    }
}

/// Strict lexicographic order on key texts, by code point; used to break
/// promotion ties deterministically.
pub open spec fn lex_lt(a: Seq<char>, b: Seq<char>) -> bool
    decreases a.len(),
{
    if b.len() == 0 {
        false
    } else if a.len() == 0 {
        true
    } else if a[0] as u32 != b[0] as u32 {
        (a[0] as u32) < (b[0] as u32)
    } else {
        lex_lt(a.drop_first(), b.drop_first())
    }
}

/// Distinct texts are ordered one way or the other.
pub proof fn lemma_lex_lt_total(a: Seq<char>, b: Seq<char>)
    requires
        a != b,
    ensures
        lex_lt(a, b) || lex_lt(b, a),
    decreases a.len(),
{
    if a.len() == 0 && b.len() == 0 {
        assert(a =~= b);
    } else if a.len() == 0 || b.len() == 0 {
    } else if a[0] as u32 != b[0] as u32 {
    } else {
        assert(a[0] == b[0]) by {
            vstd::utf8::char_u32_cast(a[0], a[0] as u32);
            vstd::utf8::char_u32_cast(b[0], b[0] as u32);
        }
        if a.drop_first() == b.drop_first() {
            assert(a =~= seq![a[0]] + a.drop_first());
            assert(b =~= seq![b[0]] + b.drop_first());
        } else {
            lemma_lex_lt_total(a.drop_first(), b.drop_first());
        }
    }
}

/// The order is transitive.
pub proof fn lemma_lex_lt_trans(a: Seq<char>, b: Seq<char>, c: Seq<char>)
    requires
        lex_lt(a, b),
        lex_lt(b, c),
    ensures
        lex_lt(a, c),
    decreases a.len() + b.len() + c.len(),
{
    if b.len() == 0 || c.len() == 0 || a.len() == 0 {
    } else if a[0] as u32 == b[0] as u32 && b[0] as u32 == c[0] as u32 {
        lemma_lex_lt_trans(a.drop_first(), b.drop_first(), c.drop_first());
    }
}

/// The order is asymmetric.
pub proof fn lemma_lex_lt_asym(a: Seq<char>, b: Seq<char>)
    requires
        lex_lt(a, b),
    ensures
        !lex_lt(b, a),
    decreases a.len(),
{
    if a.len() == 0 || b.len() == 0 {
    } else if a[0] as u32 == b[0] as u32 {
        lemma_lex_lt_asym(a.drop_first(), b.drop_first());
    }
}

/// Compares two key texts lexicographically by code point.
pub fn str_lex_lt(a: &str, b: &str) -> (r: bool)
    ensures
        r == lex_lt(a@, b@),
{
    let a_len = a.unicode_len();
    let b_len = b.unicode_len();
    let mut i: usize = 0;
    proof {
        assert(a@.skip(0) =~= a@);
        assert(b@.skip(0) =~= b@);
    }
    loop
        invariant
            0 <= i <= a_len,
            i <= b_len,
            a_len == a@.len(),
            b_len == b@.len(),
            lex_lt(a@, b@) == lex_lt(a@.skip(i as int), b@.skip(i as int)),
        decreases a_len - i,
    {
        if i == b_len {
            return false;
        }
        if i == a_len {
            return true;
        }
        let ca = a.get_char(i);
        let cb = b.get_char(i);
        proof {
            assert(a@.skip(i as int)[0] == a@[i as int]);
            assert(b@.skip(i as int)[0] == b@[i as int]);
            assert(a@.skip(i as int).drop_first() =~= a@.skip(i as int + 1));
            assert(b@.skip(i as int).drop_first() =~= b@.skip(i as int + 1));
        }
        if ca as u32 != cb as u32 {
            return (ca as u32) < (cb as u32);
        }
        i += 1;
    }
}

} // verus!
