//! Ephemeral passphrases: a fixed number of characters drawn uniformly from a mixed
//! alphanumeric and symbol alphabet by a cryptographically secure generator.

use rand::Rng;
use vstd::prelude::*;

verus! {

/// The number of characters of a passphrase.
pub const PASSPHRASE_LEN: usize = 64;

/// The alphabet passphrases are drawn from.
pub open spec fn passphrase_alphabet() -> Seq<char> {
    "ABCDEFGHIJKLMNOPQRSTUVWXYZabcdefghijklmnopqrstuvwxyz0123456789!@#$%^&*"@
}

/// Whether `p` could be a passphrase of this tool.
pub open spec fn is_passphrase(p: Seq<char>) -> bool {
    &&& p.len() == PASSPHRASE_LEN
    &&& forall|i: int| 0 <= i < p.len() ==> passphrase_alphabet().contains(#[trigger] p[i])
}

/// Relies on rand's Rng::gen_range on the thread-local generator: a value in `0..bound`,
/// which the generator panics on only when the range is empty.
#[verifier::external_body]
fn random_below(bound: usize) -> (r: usize)
    requires
        bound > 0,
    ensures
        r < bound,
{
    rand::thread_rng().gen_range(0..bound)
}

/// The passphrase whose `i`-th character is the alphabet's character at `indices[i]`.
pub fn passphrase_from_draws(indices: &Vec<usize>) -> (r: String)
    requires
        indices@.len() == PASSPHRASE_LEN,
        forall|i: int| 0 <= i < indices@.len() ==> #[trigger] indices@[i] < passphrase_alphabet().len(),
    ensures
        r@.len() == indices@.len(),
        forall|i: int| 0 <= i < indices@.len() ==> #[trigger] r@[i] == passphrase_alphabet()[indices@[i] as int],
        is_passphrase(r@),
{
    let alphabet = "ABCDEFGHIJKLMNOPQRSTUVWXYZabcdefghijklmnopqrstuvwxyz0123456789!@#$%^&*";
    proof {
        reveal_strlit("ABCDEFGHIJKLMNOPQRSTUVWXYZabcdefghijklmnopqrstuvwxyz0123456789!@#$%^&*");
    }
    let mut r = String::new();
    let mut i: usize = 0;
    while i < indices.len()
        invariant
            alphabet@ == passphrase_alphabet(),
            passphrase_alphabet().len() == 70,
            indices@.len() == PASSPHRASE_LEN,
            forall|j: int| 0 <= j < indices@.len() ==> #[trigger] indices@[j] < passphrase_alphabet().len(),
            i <= indices@.len(),
            r@.len() == i,
            forall|j: int| 0 <= j < i ==> #[trigger] r@[j] == passphrase_alphabet()[indices@[j] as int],
        decreases indices@.len() - i,
    {
        let k = indices[i];
        let c = alphabet.substring_char(k, k + 1);
        let ghost before = r@;
        r.append(c);
        proof {
            assert(c@ =~= seq![alphabet@[k as int]]);
            assert(r@ =~= before.push(alphabet@[k as int]));
        }
        i = i + 1;
    }
    proof {
        assert forall|j: int| 0 <= j < r@.len() implies passphrase_alphabet().contains(#[trigger] r@[j]) by {
            assert(passphrase_alphabet()[indices@[j] as int] == r@[j]);
        }
    }
    r
}

/// A fresh passphrase: one uniform draw from the alphabet per character.
pub fn generate_random_passphrase() -> (r: String)
    ensures
        is_passphrase(r@),
{
    proof {
        reveal_strlit("ABCDEFGHIJKLMNOPQRSTUVWXYZabcdefghijklmnopqrstuvwxyz0123456789!@#$%^&*");
    }
    let n: usize = 70;
    assert(n == passphrase_alphabet().len());
    let mut indices: Vec<usize> = Vec::new();
    while indices.len() < PASSPHRASE_LEN
        invariant
            n == passphrase_alphabet().len(),
            n == 70,
            indices@.len() <= PASSPHRASE_LEN,
            forall|j: int| 0 <= j < indices@.len() ==> #[trigger] indices@[j] < passphrase_alphabet().len(),
        decreases PASSPHRASE_LEN - indices@.len(),
    {
        let k = random_below(n);
        indices.push(k);
    }
    passphrase_from_draws(&indices)
}

} // verus!

verus! {

/// No blank, line break, period or hyphen is a passphrase character.
pub proof fn lemma_alphabet_has_no_separator(c: char)
    requires
        passphrase_alphabet().contains(c),
    ensures
        c != ' ',
        c != '\n',
        c != '.',
        c != '-',
{
    reveal_strlit("ABCDEFGHIJKLMNOPQRSTUVWXYZabcdefghijklmnopqrstuvwxyz0123456789!@#$%^&*");
    let a = passphrase_alphabet();
    assert forall|i: int| 0 <= i < a.len() implies a[i] != ' ' && a[i] != '\n' && a[i] != '.' && a[i] != '-' by {
        assert(a[i] == "ABCDEFGHIJKLMNOPQRSTUVWXYZabcdefghijklmnopqrstuvwxyz0123456789!@#$%^&*"@[i]);
    }
}

} // verus!
