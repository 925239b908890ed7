//! The password generator: characters drawn from the operating system's
//! entropy source, by rejection sampling so that every character of the
//! chosen set is equally likely.
//!
//! A byte `b` is accepted only below the largest multiple of the set's
//! size that fits in 256, and then picks the character at `b mod size`;
//! other bytes are discarded. The strength estimate in bits
//! (`length * log2(size)`) is computed outside the library, in floating
//! point; `strength_label` classifies it.
use vstd::prelude::*;
use crate::crypto::keys::wipe_vec;
use crate::crypto::rng::secure_random_bytes;
use crate::error::{invalid_input, is_rng_error, CypheriaError};
use crate::models::entry::GenOptions;
use crate::text::{chars_of, push_char, push_str, string_of};

verus! {

broadcast use vstd::string::group_string_axioms;

pub const MIN_LENGTH: usize = 4;
pub const MAX_LENGTH: usize = 256;

/// A generated password and the size of the set it was drawn from.
pub struct GeneratedPassword {
    pub password: String,
    pub charset_size: u32,
}

/// What the frontend receives: the password, its strength estimate in
/// bits, the label of that estimate, and the size of the character set.
#[derive(Debug)]
pub struct PasswordGenResult {
    pub password: String,
    pub entropy_bits: u32,
    pub strength: String,
    pub charset_size: u32,
}

/// The label of a strength estimate in bits.
pub open spec fn strength_text(entropy_bits: u32) -> Seq<char> {
    if entropy_bits <= 35 {
        "Weak"@
    } else if entropy_bits <= 59 {
        "Moderate"@
    } else if entropy_bits <= 79 {
        "Strong"@
    } else {
        "Very Strong"@
    }
}

/// The strength labels by bit count: up to 35 bits `Weak`, 36 to 59
/// `Moderate`, 60 to 79 `Strong`, and every count above 79 `Very Strong`;
/// a larger count never gets a weaker label.
pub proof fn lemma_strength_labels(b: u32, c: u32)
    ensures
        b <= 35 ==> strength_text(b) == "Weak"@,
        36 <= b <= 59 ==> strength_text(b) == "Moderate"@,
        60 <= b <= 79 ==> strength_text(b) == "Strong"@,
        b > 79 ==> strength_text(b) == "Very Strong"@,
        b <= c ==> strength_rank(strength_text(b)) <= strength_rank(strength_text(c)),
{
    reveal_strlit("Weak");
    reveal_strlit("Moderate");
    reveal_strlit("Strong");
    reveal_strlit("Very Strong");
    assert("Weak"@.len() == 4 && "Moderate"@.len() == 8 && "Strong"@.len() == 6 && "Very Strong"@.len() == 11);
}

/// The order of the labels, weakest first.
pub open spec fn strength_rank(label: Seq<char>) -> int {
    if label == "Weak"@ {
        0
    } else if label == "Moderate"@ {
        1
    } else if label == "Strong"@ {
        2
    } else {
        3
    }
}

pub open spec fn upper_chars() -> Seq<char> {
    "ABCDEFGHIJKLMNOPQRSTUVWXYZ"@
}

pub open spec fn lower_chars() -> Seq<char> {
    "abcdefghijklmnopqrstuvwxyz"@
}

pub open spec fn digit_chars() -> Seq<char> {
    "0123456789"@
}

pub open spec fn symbol_chars() -> Seq<char> {
    "!@#$%^&*()_+-=[]{}|;:,.<>?"@
}

/// The characters of the enabled classes, in the order upper-case,
/// lower-case, digits, symbols.
pub open spec fn charset_of(o: &GenOptions) -> Seq<char> {
    (if o.upper { upper_chars() } else { Seq::empty() })
        + (if o.lower { lower_chars() } else { Seq::empty() })
        + (if o.numbers { digit_chars() } else { Seq::empty() })
        + (if o.symbols { symbol_chars() } else { Seq::empty() })
}

/// Bytes below this bound are accepted for a set of `n` characters.
pub open spec fn accept_limit(n: nat) -> nat {
    (256nat / n) * n
}

/// The characters that rejection sampling picks from `charset` for the
/// byte stream `draws`, in order.
pub open spec fn sampled(charset: Seq<char>, draws: Seq<u8>) -> Seq<char>
    decreases draws.len(),
{
    if draws.len() == 0 {
        Seq::empty()
    } else {
        let before = sampled(charset, draws.drop_last());
        let b = draws.last();
        if (b as nat) < accept_limit(charset.len()) {
            before.push(charset[b as int % charset.len() as int])
        } else {
            before
        }
    }
}

pub open spec fn length_error() -> Seq<char> {
    "Password length must be between 4 and 256"@
}

pub open spec fn class_error() -> Seq<char> {
    "At least one character class must be selected"@
}

/// Every character that sampling picks belongs to the set.
pub proof fn lemma_sampled_in_charset(charset: Seq<char>, draws: Seq<u8>)
    requires
        charset.len() > 0,
    ensures
        forall|i: int| 0 <= i < sampled(charset, draws).len() ==> charset.contains(#[trigger] sampled(charset, draws)[i]),
    decreases draws.len(),
{
    if draws.len() > 0 {
        lemma_sampled_in_charset(charset, draws.drop_last());
        let before = sampled(charset, draws.drop_last());
        let b = draws.last();
        if (b as nat) < accept_limit(charset.len()) {
            let k = b as int % charset.len() as int;
            assert(charset[k] == charset[k]);
            assert forall|i: int| 0 <= i < sampled(charset, draws).len() implies charset.contains(#[trigger] sampled(charset, draws)[i]) by {
                if i < before.len() {
                    assert(sampled(charset, draws)[i] == before[i]);
                } else {
                    assert(sampled(charset, draws)[i] == charset[k]);
                }
            }
        }
    }
}

/// No modulo bias: for a set of `n` characters, the accepted bytes are
/// exactly the `q * n + k` with `q < 256 / n` and `k < n`, and such a byte
/// picks character `k`. So every character is picked by the same number of
/// byte values, `256 / n`.
pub proof fn lemma_sampling_is_unbiased(n: nat)
    requires
        0 < n <= 256,
    ensures
        forall|b: nat| b < accept_limit(n) ==> #[trigger] (b / n) < 256nat / n && b == (b / n) * n + b % n,
        forall|q: nat, k: nat| q < 256nat / n && k < n ==> #[trigger] (q * n + k) < accept_limit(n) && (q * n + k) % n == k,
{
    assert forall|b: nat| b < accept_limit(n) implies #[trigger] (b / n) < 256nat / n && b == (b / n) * n + b % n by {
        assert(b == (b / n) * n + b % n) by (nonlinear_arith)
            requires
                n > 0,
        ;
        assert((b / n) < 256nat / n) by (nonlinear_arith)
            requires
                n > 0,
                b < (256nat / n) * n,
        ;
    }
    assert forall|q: nat, k: nat| q < 256nat / n && k < n implies #[trigger] (q * n + k) < accept_limit(n) && (q * n + k) % n == k by {
        assert(q * n + k < (256nat / n) * n) by (nonlinear_arith)
            requires
                q < 256nat / n,
                k < n,
        ;
        vstd::arithmetic::div_mod::lemma_fundamental_div_mod_converse(
            (q * n + k) as int,
            n as int,
            q as int,
            k as int,
        );
    }
}

fn build_charset(options: &GenOptions) -> (cs: Vec<char>)
    ensures
        cs@ == charset_of(options),
{
    let mut charset = String::new();
    if options.upper {
        push_str(&mut charset, "ABCDEFGHIJKLMNOPQRSTUVWXYZ");
    }
    if options.lower {
        push_str(&mut charset, "abcdefghijklmnopqrstuvwxyz");
    }
    if options.numbers {
        push_str(&mut charset, "0123456789");
    }
    if options.symbols {
        push_str(&mut charset, "!@#$%^&*()_+-=[]{}|;:,.<>?");
    }
    assert(charset@ =~= charset_of(options));
    chars_of(charset.as_str())
}

proof fn lemma_charset_len(o: &GenOptions)
    ensures
        charset_of(o).len() == (if o.upper { 26nat } else { 0nat }) + (if o.lower { 26nat } else { 0nat }) + (
        if o.numbers { 10nat } else { 0nat }) + (if o.symbols { 26nat } else { 0nat }),
{
    reveal_strlit("ABCDEFGHIJKLMNOPQRSTUVWXYZ");
    reveal_strlit("abcdefghijklmnopqrstuvwxyz");
    reveal_strlit("0123456789");
    reveal_strlit("!@#$%^&*()_+-=[]{}|;:,.<>?");
}

/// Sampling a longer stream only extends what a shorter one picked.
pub proof fn lemma_sampled_prefix(charset: Seq<char>, draws: Seq<u8>, i: int)
    requires
        0 <= i <= draws.len(),
    ensures
        sampled(charset, draws.take(i)).len() <= sampled(charset, draws).len(),
        sampled(charset, draws).take(sampled(charset, draws.take(i)).len() as int) == sampled(charset, draws.take(i)),
    decreases draws.len(),
{
    if i == draws.len() {
        assert(draws.take(i) =~= draws);
    } else {
        let init = draws.drop_last();
        assert(init.take(i) =~= draws.take(i));
        lemma_sampled_prefix(charset, init, i);
        let a = sampled(charset, draws.take(i));
        let m = sampled(charset, init);
        assert(sampled(charset, draws).take(m.len() as int) =~= m);
        assert(sampled(charset, draws).take(a.len() as int) =~= m.take(a.len() as int));
    }
}

/// The password that rejection sampling picks from `charset` for the byte
/// stream `draws`: its first `length` characters, or nothing when the
/// stream does not hold enough accepted bytes.
pub open spec fn picked(charset: Seq<char>, length: nat, draws: Seq<u8>) -> Option<Seq<char>> {
    if sampled(charset, draws).len() >= length {
        Some(sampled(charset, draws).take(length as int))
    } else {
        None
    }
}

/// Picks a password of `length` characters from `charset` by rejection
/// sampling over the random bytes `draws`, in order.
pub fn sample_password(charset: &[char], length: usize, draws: &[u8]) -> (r: Option<String>)
    requires
        0 < charset@.len() <= 256,
    ensures
        match picked(charset@, length as nat, draws@) {
            Some(p) => r matches Some(s) && s@ == p,
            None => r is None,
        },
{
    let n = charset.len();
    assert((256usize / n) * n <= 256) by (nonlinear_arith)
        requires
            n > 0,
    ;
    let limit: usize = (256 / n) * n;
    let ghost cs = charset@;
    let mut password = String::new();
    let mut i: usize = 0;
    let m = draws.len();
    while i < m && password.unicode_len() < length
        invariant
            cs == charset@,
            n == cs.len(),
            0 < n <= 256,
            limit == accept_limit(n as nat),
            m == draws@.len(),
            i <= m,
            password@ == sampled(cs, draws@.take(i as int)),
            password@.len() <= length,
        decreases m - i,
    {
        let byte = draws[i];
        assert(draws@.take(i + 1).drop_last() =~= draws@.take(i as int));
        if (byte as usize) < limit {
            push_char(&mut password, charset[(byte as usize) % n]);
        }
        i = i + 1;
    }
    proof {
        lemma_sampled_prefix(cs, draws@, i as int);
    }
    if password.unicode_len() < length {
        assert(draws@.take(i as int) =~= draws@);
        None
    } else {
        Some(password)
    }
}

/// Generates a password of `options.length` characters from the enabled
/// classes. The length must be between 4 and 256 and at least one class
/// must be enabled. Bytes are drawn from the operating system until
/// enough of them are accepted; the password is what `sample_password`
/// picks from them.
///
/// The drawing gives up with `CryptoError` after 2^64 − 1 bytes, which no
/// real entropy source reaches (each byte is accepted with probability
/// above 2/3), and with the random-source error when the operating system
/// cannot supply bytes.
pub fn generate_password(options: GenOptions) -> (r: Result<GeneratedPassword, CypheriaError>)
    ensures
        (options.length < MIN_LENGTH || options.length > MAX_LENGTH) ==> (r matches Err(CypheriaError::InvalidInput(m)) && m@ == length_error()),
        (MIN_LENGTH <= options.length <= MAX_LENGTH && charset_of(&options).len() == 0) ==> (r matches Err(CypheriaError::InvalidInput(m)) && m@ == class_error()),
        (MIN_LENGTH <= options.length <= MAX_LENGTH && charset_of(&options).len() > 0) ==> match r {
            Ok(g) => {
                &&& g.charset_size == charset_of(&options).len()
                &&& g.password@.len() == options.length
                &&& exists|draws: Seq<u8>| picked(charset_of(&options), options.length as nat, draws) == Some(g.password@)
                &&& forall|i: int| 0 <= i < g.password@.len() ==> charset_of(&options).contains(#[trigger] g.password@[i])
            },
            Err(e) => is_rng_error(e) || (e == CypheriaError::CryptoError && exists|d: Seq<u8>|
                d.len() == 0xFFFF_FFFF_FFFF_FFFF && #[trigger] sampled(charset_of(&options), d).len() < options.length),
        },
{
    if options.length < MIN_LENGTH || options.length > MAX_LENGTH {
        return Err(invalid_input("Password length must be between 4 and 256"));
    }
    let charset = build_charset(&options);
    proof {
        lemma_charset_len(&options);
    }
    if charset.len() == 0 {
        return Err(invalid_input("At least one character class must be selected"));
    }
    let n = charset.len();
    assert((256usize / n) * n <= 256) by (nonlinear_arith)
        requires
            n > 0,
    ;
    let limit: usize = (256 / n) * n;
    let ghost cs = charset@;
    let length = options.length;
    let mut draws: Vec<u8> = Vec::new();
    let mut accepted: usize = 0;
    let mut draws_left: u64 = 0xFFFF_FFFF_FFFF_FFFF;
    while accepted < length
        invariant
            cs == charset@,
            cs == charset_of(&options),
            length == options.length,
            MIN_LENGTH <= length <= MAX_LENGTH,
            n == cs.len(),
            0 < n <= 88,
            limit == accept_limit(n as nat),
            accepted <= length,
            accepted == sampled(cs, draws@).len(),
            draws@.len() + draws_left == 0xFFFF_FFFF_FFFF_FFFF,
        decreases draws_left,
    {
        if draws_left == 0 {
            let ghost all = draws@;
            wipe_vec(&mut draws);
            assert(all.len() == 0xFFFF_FFFF_FFFF_FFFF && sampled(cs, all).len() < length);
            return Err(CypheriaError::CryptoError);
        }
        draws_left = draws_left - 1;
        let buf = match secure_random_bytes::<1>() {
            Ok(b) => b,
            Err(e) => {
                wipe_vec(&mut draws);
                return Err(e);
            },
        };
        let byte = buf[0];
        let ghost before = draws@;
        draws.push(byte);
        assert(draws@.drop_last() =~= before);
        if (byte as usize) < limit {
            accepted = accepted + 1;
        }
    }
    let ghost stream = draws@;
    assert(picked(cs, length as nat, stream) is Some);
    let picked_password = sample_password(charset.as_slice(), length, draws.as_slice());
    wipe_vec(&mut draws);
    let password = match picked_password {
        Some(p) => p,
        None => return Err(CypheriaError::CryptoError),
    };
    proof {
        assert(sampled(cs, stream).take(length as int) =~= sampled(cs, stream));
        lemma_sampled_in_charset(cs, stream);
    }
    Ok(GeneratedPassword { password, charset_size: n as u32 })
}

/// The label of a strength estimate in bits: up to 35 `Weak`, up to 59
/// `Moderate`, up to 79 `Strong`, above that `Very Strong`.
pub fn strength_label(entropy_bits: u32) -> (r: String)
    ensures
        r@ == strength_text(entropy_bits),
{
    if entropy_bits <= 35 {
        string_of("Weak")
    } else if entropy_bits <= 59 {
        string_of("Moderate")
    } else if entropy_bits <= 79 {
        string_of("Strong")
    } else {
        string_of("Very Strong")
    }
}

/// The result for a generated password whose strength estimate is
/// `entropy_bits`.
pub fn password_gen_result(generated: GeneratedPassword, entropy_bits: u32) -> (r: PasswordGenResult)
    ensures
        r.password@ == generated.password@,
        r.entropy_bits == entropy_bits,
        r.strength@ == strength_text(entropy_bits),
        r.charset_size == generated.charset_size,
{
    PasswordGenResult {
        password: generated.password,
        entropy_bits,
        strength: strength_label(entropy_bits),
        charset_size: generated.charset_size,
    }
}

} // verus!
