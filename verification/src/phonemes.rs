//! The phoneme inventory of the synthesiser and the lookup of espeak
//! X-SAMPA mnemonics in it.

use crate::text::chars_of;
use vstd::prelude::*;

verus! {

/// A phoneme of the synthesiser's inventory: one row of its formant table.
#[derive(Clone, Copy, Debug, PartialEq, Eq, Structural, Hash)]
pub enum Phoneme {
    /// The close front vowel, as in fleece.
    Fleece,
    /// The near-close front vowel, as in kit.
    Kit,
    /// The mid front vowel, as in dress.
    Dress,
    /// The near-open front vowel, as in trap.
    Trap,
    /// The open back vowel, as in palm.
    Palm,
    /// The open back rounded vowel, as in lot.
    Lot,
    /// The open-mid back vowel, as in strut.
    Strut,
    /// The mid central vowel (schwa), as in comma.
    Comma,
    /// The near-close back vowel, as in foot.
    Foot,
    /// The close back vowel, as in goose.
    Goose,
    /// The open-mid central vowel, as in nurse.
    Nurse,
    /// The diphthong as in price.
    Price,
    /// The diphthong as in face.
    Face,
    /// The diphthong as in choice.
    Choice,
    /// The diphthong as in mouth.
    Mouth,
    /// The diphthong as in goat.
    Goat,
    /// The centring diphthong as in near.
    Near,
    /// The centring diphthong as in square.
    Square,
    /// The centring diphthong as in cure.
    Cure,
    /// The approximant w.
    W,
    /// The approximant j (yes).
    Y,
    /// The approximant r.
    R,
    /// The lateral approximant l.
    L,
    /// The nasal m.
    M,
    /// The nasal n.
    N,
    /// The velar nasal (sing).
    Ng,
    /// The voiceless fricative f.
    F,
    /// The voiceless dental fricative (thin).
    Th,
    /// The voiceless fricative s.
    S,
    /// The voiceless postalveolar fricative (ship).
    Sh,
    /// The voiceless velar fricative.
    X,
    /// The voiced fricative v.
    V,
    /// The voiced dental fricative (then).
    Dh,
    /// The voiced fricative z.
    Z,
    /// The voiced postalveolar fricative (measure).
    Zh,
    /// The aspiration h.
    H,
    /// The voiceless stop p.
    P,
    /// The voiceless stop t.
    T,
    /// The voiceless stop k.
    K,
    /// The voiced stop b.
    B,
    /// The voiced stop d.
    D,
    /// The voiced stop g.
    G,
    /// The voiceless affricate (chin).
    Ch,
    /// The voiced affricate (gin).
    Jh,
    /// The glottal stop or silence.
    Pause,
}

/// The phoneme that an espeak X-SAMPA mnemonic names exactly, if any.
pub open spec fn phoneme_of_mnemonic(m: Seq<char>) -> Option<Phoneme> {
    if m == seq!['i'] || m == seq!['i', ':'] {
        Some(Phoneme::Fleece)
    } else if m == seq!['I'] || m == seq!['I', '2'] {
        Some(Phoneme::Kit)
    } else if m == seq!['E'] || m == seq!['e'] {
        Some(Phoneme::Dress)
    } else if m == seq!['{'] {
        Some(Phoneme::Trap)
    } else if m == seq!['A'] || m == seq!['A', ':'] || m == seq!['a'] || m == seq!['a', ':'] || m == seq!['A', '@'] {
        Some(Phoneme::Palm)
    } else if m == seq!['Q'] || m == seq!['O'] || m == seq!['O', ':'] || m == seq!['0'] {
        Some(Phoneme::Lot)
    } else if m == seq!['V'] {
        Some(Phoneme::Strut)
    } else if m == seq!['@'] || m == seq!['@', '2'] || m == seq!['@', 'L'] {
        Some(Phoneme::Comma)
    } else if m == seq!['U'] || m == seq!['U', '2'] {
        Some(Phoneme::Foot)
    } else if m == seq!['u'] || m == seq!['u', ':'] {
        Some(Phoneme::Goose)
    } else if m == seq!['3'] || m == seq!['3', ':'] || m == seq!['@', '@'] {
        Some(Phoneme::Nurse)
    } else if m == seq!['a', 'I'] || m == seq!['a', 'I', ';'] || m == seq!['a', 'I', '2'] {
        Some(Phoneme::Price)
    } else if m == seq!['e', 'I'] {
        Some(Phoneme::Face)
    } else if m == seq!['O', 'I'] || m == seq!['O', 'i'] {
        Some(Phoneme::Choice)
    } else if m == seq!['a', 'U'] || m == seq!['a', 'U', ';'] {
        Some(Phoneme::Mouth)
    } else if m == seq!['o', 'U'] || m == seq!['@', 'U'] || m == seq!['o', 'U', ';'] {
        Some(Phoneme::Goat)
    } else if m == seq!['I', '@'] || m == seq!['i', '@'] {
        Some(Phoneme::Near)
    } else if m == seq!['e', '@'] {
        Some(Phoneme::Square)
    } else if m == seq!['U', '@'] {
        Some(Phoneme::Cure)
    } else if m == seq!['w'] {
        Some(Phoneme::W)
    } else if m == seq!['j'] {
        Some(Phoneme::Y)
    } else if m == seq!['r'] || m == seq!['r', '\\'] {
        Some(Phoneme::R)
    } else if m == seq!['l'] {
        Some(Phoneme::L)
    } else if m == seq!['m'] {
        Some(Phoneme::M)
    } else if m == seq!['n'] {
        Some(Phoneme::N)
    } else if m == seq!['N'] {
        Some(Phoneme::Ng)
    } else if m == seq!['f'] {
        Some(Phoneme::F)
    } else if m == seq!['T'] {
        Some(Phoneme::Th)
    } else if m == seq!['s'] {
        Some(Phoneme::S)
    } else if m == seq!['S'] {
        Some(Phoneme::Sh)
    } else if m == seq!['x'] {
        Some(Phoneme::X)
    } else if m == seq!['v'] {
        Some(Phoneme::V)
    } else if m == seq!['D'] {
        Some(Phoneme::Dh)
    } else if m == seq!['z'] {
        Some(Phoneme::Z)
    } else if m == seq!['Z'] {
        Some(Phoneme::Zh)
    } else if m == seq!['h'] {
        Some(Phoneme::H)
    } else if m == seq!['p'] {
        Some(Phoneme::P)
    } else if m == seq!['t'] {
        Some(Phoneme::T)
    } else if m == seq!['k'] {
        Some(Phoneme::K)
    } else if m == seq!['b'] {
        Some(Phoneme::B)
    } else if m == seq!['d'] {
        Some(Phoneme::D)
    } else if m == seq!['g'] {
        Some(Phoneme::G)
    } else if m == seq!['t', 'S'] {
        Some(Phoneme::Ch)
    } else if m == seq!['d', 'Z'] {
        Some(Phoneme::Jh)
    } else if m == seq!['?'] || m == seq!['_'] {
        Some(Phoneme::Pause)
    } else {
        None
    }
}

/// A trailing character that marks a variant of a phoneme: an ASCII digit or `#`.
pub open spec fn is_variant_mark(c: char) -> bool {
    ('0' <= c && c <= '9') || c == '#'
}

/// The phoneme for a mnemonic: the exact entry, or else, for a mnemonic of at
/// least two characters that ends in a variant mark, the entry of the
/// mnemonic without that mark.
pub open spec fn lookup_mnemonic(m: Seq<char>) -> Option<Phoneme> {
    match phoneme_of_mnemonic(m) {
        Some(p) => Some(p),
        None => if m.len() >= 2 && is_variant_mark(m.last()) {
            phoneme_of_mnemonic(m.drop_last())
        } else {
            None
        },
    }
}

fn is_key1(cs: &Vec<char>, a: char) -> (r: bool)
    ensures
        r == (cs@ == seq![a]),
{
    if cs.len() == 1 && cs[0] == a {
        assert(cs@ =~= seq![a]);
        true
    } else {
        false
    }
}

fn is_key2(cs: &Vec<char>, a: char, b: char) -> (r: bool)
    ensures
        r == (cs@ == seq![a, b]),
{
    if cs.len() == 2 && cs[0] == a && cs[1] == b {
        assert(cs@ =~= seq![a, b]);
        true
    } else {
        false
    }
}

fn is_key3(cs: &Vec<char>, a: char, b: char, c: char) -> (r: bool)
    ensures
        r == (cs@ == seq![a, b, c]),
{
    if cs.len() == 3 && cs[0] == a && cs[1] == b && cs[2] == c {
        assert(cs@ =~= seq![a, b, c]);
        true
    } else {
        false
    }
}

/// The phoneme that the mnemonic spelled by `cs` names exactly, if any.
fn lookup_chars(cs: &Vec<char>) -> (r: Option<Phoneme>)
    ensures
        r == phoneme_of_mnemonic(cs@),
{
    if is_key1(cs, 'i') || is_key2(cs, 'i', ':') {
        Some(Phoneme::Fleece)
    } else if is_key1(cs, 'I') || is_key2(cs, 'I', '2') {
        Some(Phoneme::Kit)
    } else if is_key1(cs, 'E') || is_key1(cs, 'e') {
        Some(Phoneme::Dress)
    } else if is_key1(cs, '{') {
        Some(Phoneme::Trap)
    } else if is_key1(cs, 'A') || is_key2(cs, 'A', ':') || is_key1(cs, 'a') || is_key2(cs, 'a', ':') || is_key2(cs, 'A', '@') {
        Some(Phoneme::Palm)
    } else if is_key1(cs, 'Q') || is_key1(cs, 'O') || is_key2(cs, 'O', ':') || is_key1(cs, '0') {
        Some(Phoneme::Lot)
    } else if is_key1(cs, 'V') {
        Some(Phoneme::Strut)
    } else if is_key1(cs, '@') || is_key2(cs, '@', '2') || is_key2(cs, '@', 'L') {
        Some(Phoneme::Comma)
    } else if is_key1(cs, 'U') || is_key2(cs, 'U', '2') {
        Some(Phoneme::Foot)
    } else if is_key1(cs, 'u') || is_key2(cs, 'u', ':') {
        Some(Phoneme::Goose)
    } else if is_key1(cs, '3') || is_key2(cs, '3', ':') || is_key2(cs, '@', '@') {
        Some(Phoneme::Nurse)
    } else if is_key2(cs, 'a', 'I') || is_key3(cs, 'a', 'I', ';') || is_key3(cs, 'a', 'I', '2') {
        Some(Phoneme::Price)
    } else if is_key2(cs, 'e', 'I') {
        Some(Phoneme::Face)
    } else if is_key2(cs, 'O', 'I') || is_key2(cs, 'O', 'i') {
        Some(Phoneme::Choice)
    } else if is_key2(cs, 'a', 'U') || is_key3(cs, 'a', 'U', ';') {
        Some(Phoneme::Mouth)
    } else if is_key2(cs, 'o', 'U') || is_key2(cs, '@', 'U') || is_key3(cs, 'o', 'U', ';') {
        Some(Phoneme::Goat)
    } else if is_key2(cs, 'I', '@') || is_key2(cs, 'i', '@') {
        Some(Phoneme::Near)
    } else if is_key2(cs, 'e', '@') {
        Some(Phoneme::Square)
    } else if is_key2(cs, 'U', '@') {
        Some(Phoneme::Cure)
    } else if is_key1(cs, 'w') {
        Some(Phoneme::W)
    } else if is_key1(cs, 'j') {
        Some(Phoneme::Y)
    } else if is_key1(cs, 'r') || is_key2(cs, 'r', '\\') {
        Some(Phoneme::R)
    } else if is_key1(cs, 'l') {
        Some(Phoneme::L)
    } else if is_key1(cs, 'm') {
        Some(Phoneme::M)
    } else if is_key1(cs, 'n') {
        Some(Phoneme::N)
    } else if is_key1(cs, 'N') {
        Some(Phoneme::Ng)
    } else if is_key1(cs, 'f') {
        Some(Phoneme::F)
    } else if is_key1(cs, 'T') {
        Some(Phoneme::Th)
    } else if is_key1(cs, 's') {
        Some(Phoneme::S)
    } else if is_key1(cs, 'S') {
        Some(Phoneme::Sh)
    } else if is_key1(cs, 'x') {
        Some(Phoneme::X)
    } else if is_key1(cs, 'v') {
        Some(Phoneme::V)
    } else if is_key1(cs, 'D') {
        Some(Phoneme::Dh)
    } else if is_key1(cs, 'z') {
        Some(Phoneme::Z)
    } else if is_key1(cs, 'Z') {
        Some(Phoneme::Zh)
    } else if is_key1(cs, 'h') {
        Some(Phoneme::H)
    } else if is_key1(cs, 'p') {
        Some(Phoneme::P)
    } else if is_key1(cs, 't') {
        Some(Phoneme::T)
    } else if is_key1(cs, 'k') {
        Some(Phoneme::K)
    } else if is_key1(cs, 'b') {
        Some(Phoneme::B)
    } else if is_key1(cs, 'd') {
        Some(Phoneme::D)
    } else if is_key1(cs, 'g') {
        Some(Phoneme::G)
    } else if is_key2(cs, 't', 'S') {
        Some(Phoneme::Ch)
    } else if is_key2(cs, 'd', 'Z') {
        Some(Phoneme::Jh)
    } else if is_key1(cs, '?') || is_key1(cs, '_') {
        Some(Phoneme::Pause)
    } else {
        None
    }
}

/// Looks up the phoneme that an espeak mnemonic names exactly.
pub fn lookup_exact(m: &str) -> (r: Option<Phoneme>)
    ensures
        r == phoneme_of_mnemonic(m@),
{
    let cs = chars_of(m);
    lookup_chars(&cs)
}

/// Looks up an espeak X-SAMPA mnemonic in the phoneme inventory.
/// Strips a trailing digit or `#` before the second lookup attempt.
pub fn lookup(mnem: &str) -> (r: Option<Phoneme>)
    ensures
        r == lookup_mnemonic(mnem@),
{
    let mut cs = chars_of(mnem);
    let exact = lookup_chars(&cs);
    if exact.is_some() {
        return exact;
    }
    let n = cs.len();
    if n >= 2 {
        let last = cs[n - 1];
        if ('0' <= last && last <= '9') || last == '#' {
            cs.pop();
            assert(cs@ =~= mnem@.drop_last());
            return lookup_chars(&cs);
        }
    }
    None
}

/// A variant of a known mnemonic (the mnemonic followed by a digit or `#`)
/// names the same phoneme as the mnemonic itself.
pub proof fn lemma_variant_names_same_phoneme(m: Seq<char>, d: char)
    requires
        phoneme_of_mnemonic(m) is Some,
        is_variant_mark(d),
    ensures
        lookup_mnemonic(m.push(d)) == phoneme_of_mnemonic(m),
{
    assert(m.push(d).drop_last() =~= m);
    assert(m.push(d).last() == d);
}

/// What `lookup` finds: an exact entry first; otherwise, only for a
/// mnemonic of at least two characters ending in an ASCII digit or `#`, the
/// entry of the mnemonic without that last character; nothing else.
pub proof fn lemma_lookup_finds(m: Seq<char>)
    ensures
        phoneme_of_mnemonic(m) is Some ==> lookup_mnemonic(m) == phoneme_of_mnemonic(m),
        lookup_mnemonic(m) matches Some(p) ==> phoneme_of_mnemonic(m) == Some(p) || (m.len() >= 2
            && (('0' <= m.last() && m.last() <= '9') || m.last() == '#') && phoneme_of_mnemonic(
            m.drop_last(),
        ) == Some(p)),
        phoneme_of_mnemonic(m) is None && m.len() >= 2 && (('0' <= m.last() && m.last() <= '9')
            || m.last() == '#') ==> lookup_mnemonic(m) == phoneme_of_mnemonic(m.drop_last()),
{
}

} // verus!
