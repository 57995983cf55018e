//! The text front end: from espeak phoneme codes to a plan of synthesis
//! events.

use crate::phonemes::{lookup, lookup_mnemonic, Phoneme};
use crate::text::chars_of;
use vstd::prelude::*;

verus! {

/// `String::push`: appends the character `c` to the end of `s`.
#[verifier::external_body]
fn push_char(s: &mut String, c: char)
    ensures
        final(s)@ == old(s)@.push(c),
{
    s.push(c);
}

/// Byte `k` (0 = least significant) of a packed mnemonic.
pub open spec fn mnemonic_byte(v: u32, k: nat) -> u8 {
    ((v >> ((8 * k) as u32)) & 0xffu32) as u8
}

/// The text of the first `n` bytes of a packed mnemonic: each non-zero byte,
/// from the least significant up, read as the character of that code.
pub open spec fn mnemonic_text(v: u32, n: nat) -> Seq<char>
    decreases n,
{
    if n == 0 {
        Seq::empty()
    } else {
        let prev = mnemonic_text(v, (n - 1) as nat);
        let b = mnemonic_byte(v, (n - 1) as nat);
        if b == 0 {
            prev
        } else {
            prev.push(b as char)
        }
    }
}

/// An unpacked mnemonic has at most one character per byte read, and none of
/// its characters is NUL or above U+00FF.
pub proof fn lemma_mnemonic_text_shape(v: u32, n: nat)
    ensures
        mnemonic_text(v, n).len() <= n,
        forall|k: int|
            0 <= k < mnemonic_text(v, n).len() ==> 0 < (#[trigger] mnemonic_text(v, n)[k] as u32)
                < 256,
    decreases n,
{
    if n > 0 {
        lemma_mnemonic_text_shape(v, (n - 1) as nat);
    }
}

/// The code of character `k` of a mnemonic, or 0 past its end.
pub open spec fn mnemonic_char_code(s: Seq<char>, k: int) -> u32 {
    if k < s.len() {
        s[k] as u32
    } else {
        0
    }
}

/// A mnemonic of up to four characters packed little-endian into a `u32`:
/// character `k` in byte `k`.
pub open spec fn pack_mnemonic(s: Seq<char>) -> u32 {
    mnemonic_char_code(s, 0) | (mnemonic_char_code(s, 1) << 8u32) | (mnemonic_char_code(s, 2)
        << 16u32) | (mnemonic_char_code(s, 3) << 24u32)
}

/// Unpacking is the inverse of packing, for mnemonics of up to four ASCII
/// characters none of which is NUL.
pub proof fn lemma_unpack_of_packed(s: Seq<char>)
    requires
        s.len() <= 4,
        forall|k: int| 0 <= k < s.len() ==> 0 < (#[trigger] s[k] as u32) < 128,
    ensures
        mnemonic_text(pack_mnemonic(s), 4) == s,
{
    let a = mnemonic_char_code(s, 0);
    let b = mnemonic_char_code(s, 1);
    let c = mnemonic_char_code(s, 2);
    let d = mnemonic_char_code(s, 3);
    let v = pack_mnemonic(s);
    assert(a < 128 && b < 128 && c < 128 && d < 128);
    assert(((v >> 0u32) & 0xffu32) as u8 == a && ((v >> 8u32) & 0xffu32) as u8 == b && ((v
        >> 16u32) & 0xffu32) as u8 == c && ((v >> 24u32) & 0xffu32) as u8 == d) by (bit_vector)
        requires
            a < 128,
            b < 128,
            c < 128,
            d < 128,
            v == a | (b << 8u32) | (c << 16u32) | (d << 24u32),
    ;
    assert(mnemonic_byte(v, 0) == a);
    assert(mnemonic_byte(v, 1) == b);
    assert(mnemonic_byte(v, 2) == c);
    assert(mnemonic_byte(v, 3) == d);
    assert forall|k: int| 0 <= k < s.len() implies ((mnemonic_char_code(s, k) as u8) as char)
        == s[k] by {
        let u = s[k] as u32;
        vstd::utf8::char_u32_cast(s[k], u);
        assert((u as u8) as int == u as int);
    }
    reveal_with_fuel(mnemonic_text, 5);
    assert(mnemonic_text(v, 4) =~= s);
}

/// Unpacks an espeak mnemonic: up to four characters packed little-endian
/// into a `u32`, zero bytes skipped.
pub fn unpack_mnem(v: u32) -> (s: String)
    ensures
        s@ == mnemonic_text(v, 4),
{
    let mut s = String::new();
    let mut w: u32 = v;
    let mut i: u32 = 0;
    assert(v >> 0u32 == v) by (bit_vector);
    while i < 4
        invariant
            i <= 4,
            w == v >> (8 * i),
            s@ == mnemonic_text(v, i as nat),
        decreases 4 - i,
    {
        let c = #[verifier::truncate] ((w & 0xff) as u8);
        if c != 0 {
            push_char(&mut s, c as char);
        }
        assert((v >> (8 * i)) >> 8u32 == v >> (8 * (i + 1))) by (bit_vector)
            requires
                i < 4,
        ;
        w = w >> 8;
        i = i + 1;
    }
    s
}

/// The phoneme type espeak gives to vowels.
pub const PH_VOWEL: u8 = 2;

/// One item of the phoneme-code stream that espeak's translator produces.
#[derive(Clone, Copy, Debug, PartialEq, Eq, Structural)]
pub struct SpeechCode {
    /// The espeak phoneme code: 0 is a pause, 1 to 7 set the stress of the
    /// next vowel, higher codes name phonemes of the active table.
    pub code: u8,
    /// Whether this item marks a word or clause boundary.
    pub is_boundary: bool,
}

/// What the front end reads of an entry of espeak's active phoneme table.
#[derive(Clone, Copy, Debug, PartialEq, Eq, Structural)]
pub struct PhonemeEntry {
    /// Up to four ASCII characters packed little-endian.
    pub mnemonic: u32,
    /// The espeak phoneme type (`PH_VOWEL` for vowels).
    pub typ: u8,
    /// Standard length of the phoneme.
    pub std_length: u8,
}

/// One event of the synthesis plan.
#[derive(Clone, Copy, Debug, PartialEq, Eq, Structural)]
pub enum EventPlan {
    /// A phoneme of the input, with the stress code pending when it came.
    Phone { phoneme: Phoneme, stress: u8, is_vowel: bool, std_length: u8 },
    /// The pause that closes every utterance.
    ClosingPause,
}

/// The entry of the table for `code`; codes past the table's end have none.
pub open spec fn table_entry(table: Seq<Option<PhonemeEntry>>, code: u8) -> Option<PhonemeEntry> {
    if (code as int) < table.len() {
        table[code as int]
    } else {
        None
    }
}

/// Reads one code: the pending stress and the events planned so far, after it.
pub open spec fn plan_step(
    stress: u8,
    events: Seq<EventPlan>,
    c: SpeechCode,
    table: Seq<Option<PhonemeEntry>>,
) -> (u8, Seq<EventPlan>) {
    if c.is_boundary || c.code == 0 {
        (stress, events)
    } else if c.code <= 7 {
        (c.code, events)
    } else {
        match table_entry(table, c.code) {
            None => (stress, events),
            Some(e) => {
                let vowel = e.typ == PH_VOWEL;
                let planned = match lookup_mnemonic(mnemonic_text(e.mnemonic, 4)) {
                    Some(p) => events.push(
                        EventPlan::Phone { phoneme: p, stress, is_vowel: vowel, std_length: e.std_length },
                    ),
                    None => events,
                };
                (if vowel { 1u8 } else { stress }, planned)
            },
        }
    }
}

/// The pending stress and the planned events after reading all of `codes`,
/// starting from stress 1 and no events.
pub open spec fn plan_state(codes: Seq<SpeechCode>, table: Seq<Option<PhonemeEntry>>) -> (
    u8,
    Seq<EventPlan>,
)
    decreases codes.len(),
{
    if codes.len() == 0 {
        (1u8, Seq::empty())
    } else {
        let prev = plan_state(codes.drop_last(), table);
        plan_step(prev.0, prev.1, codes.last(), table)
    }
}

/// The synthesis plan of a code stream: its events, then the closing pause.
pub open spec fn planned_events(codes: Seq<SpeechCode>, table: Seq<Option<PhonemeEntry>>) -> Seq<
    EventPlan,
> {
    plan_state(codes, table).1.push(EventPlan::ClosingPause)
}

/// Plans the synthesis events of a phoneme-code stream against espeak's
/// active phoneme table (indexed by code).
pub fn plan_events(codes: &[SpeechCode], table: &[Option<PhonemeEntry>]) -> (r: Vec<EventPlan>)
    ensures
        r@ == planned_events(codes@, table@),
{
    let mut events: Vec<EventPlan> = Vec::new();
    let mut stress: u8 = 1;
    let mut i: usize = 0;
    while i < codes.len()
        invariant
            i <= codes.len(),
            (stress, events@) == plan_state(codes@.take(i as int), table@),
        decreases codes.len() - i,
    {
        let c = codes[i];
        proof {
            assert(codes@.take(i as int + 1).drop_last() =~= codes@.take(i as int));
        }
        if c.is_boundary || c.code == 0 {
        } else if c.code <= 7 {
            stress = c.code;
        } else {
            let entry = if (c.code as usize) < table.len() {
                table[c.code as usize]
            } else {
                None
            };
            match entry {
                None => {},
                Some(e) => {
                    let vowel = e.typ == PH_VOWEL;
                    let mnem = unpack_mnem(e.mnemonic);
                    match lookup(mnem.as_str()) {
                        Some(p) => {
                            events.push(
                                EventPlan::Phone {
                                    phoneme: p,
                                    stress,
                                    is_vowel: vowel,
                                    std_length: e.std_length,
                                },
                            );
                        },
                        None => {},
                    }
                    if vowel {
                        stress = 1;
                    }
                },
            }
        }
        i = i + 1;
    }
    proof {
        assert(codes@.take(codes@.len() as int) =~= codes@);
    }
    events.push(EventPlan::ClosingPause);
    events
}

/// Options of the text front end.
pub struct TtsOptions {
    /// Language code of the phoneme table and dictionary (e.g. `"en"`, `"de"`).
    pub lang: &'static str,
    /// Apply a rising pitch contour when the text ends with `?`.
    pub question_intonation: bool,
}

impl Default for TtsOptions {
    /// English, with question intonation on.
    fn default() -> (r: Self)
        ensures
            r.lang@ == "en"@,
            r.question_intonation,
    {
        TtsOptions { lang: "en", question_intonation: true }
    }
}

/// Whether `c` has the Unicode `White_Space` property.
pub open spec fn is_white_space(c: char) -> bool {
    let u = c as u32;
    ||| 0x09 <= u <= 0x0D
    ||| u == 0x20
    ||| u == 0x85
    ||| u == 0xA0
    ||| u == 0x1680
    ||| 0x2000 <= u <= 0x200A
    ||| u == 0x2028
    ||| u == 0x2029
    ||| u == 0x202F
    ||| u == 0x205F
    ||| u == 0x3000
}

/// Whether `c` has the Unicode `White_Space` property (as `char::is_whitespace`).
pub fn white_space(c: char) -> (r: bool)
    ensures
        r == is_white_space(c),
{
    let u = c as u32;
    (0x09 <= u && u <= 0x0D) || u == 0x20 || u == 0x85 || u == 0xA0 || u == 0x1680 || (0x2000
        <= u && u <= 0x200A) || u == 0x2028 || u == 0x2029 || u == 0x202F || u == 0x205F || u
        == 0x3000
}

/// Whether the text, with trailing white space removed, ends with `?`.
pub open spec fn ends_with_question(s: Seq<char>) -> bool
    decreases s.len(),
{
    if s.len() == 0 {
        false
    } else if is_white_space(s.last()) {
        ends_with_question(s.drop_last())
    } else {
        s.last() == '?'
    }
}

/// The question decision: trailing white space never changes it; a text
/// whose last character is `?` asks for the contour; one whose last
/// character is neither white space nor `?` does not, and neither does the
/// empty text.
pub proof fn lemma_question_decision(s: Seq<char>, c: char)
    ensures
        is_white_space(c) ==> ends_with_question(s.push(c)) == ends_with_question(s),
        ends_with_question(s.push('?')),
        !is_white_space(c) && c != '?' ==> !ends_with_question(s.push(c)),
        !ends_with_question(Seq::<char>::empty()),
{
    assert(s.push(c).drop_last() =~= s);
    assert(s.push('?').last() == '?');
}

/// The ASCII white space is the space, tab, line feed, vertical tab, form
/// feed and carriage return.
pub proof fn lemma_ascii_white_space(c: char)
    requires
        (c as u32) < 128,
    ensures
        is_white_space(c) <==> (c == ' ' || c == '\t' || c == '\n' || c == '\x0B' || c == '\x0C'
            || c == '\r'),
{
    vstd::utf8::char_u32_cast(c, c as u32);
}

/// Whether the rising question contour applies to `text`: the option is on and
/// the text, with trailing white space removed, ends with `?`.
pub fn wants_question_intonation(opts: &TtsOptions, text: &str) -> (r: bool)
    ensures
        r == (opts.question_intonation && ends_with_question(text@)),
{
    if !opts.question_intonation {
        return false;
    }
    let cs = chars_of(text);
    let mut n = cs.len();
    assert(cs@.take(n as int) =~= cs@);
    while n > 0 && white_space(cs[n - 1])
        invariant
            n <= cs.len(),
            ends_with_question(cs@) == ends_with_question(cs@.take(n as int)),
        decreases n,
    {
        assert(cs@.take(n as int).drop_last() =~= cs@.take(n - 1));
        n = n - 1;
    }
    if n == 0 {
        assert(cs@.take(0) =~= Seq::<char>::empty());
        false
    } else {
        assert(cs@.take(n as int).last() == cs@[n - 1]);
        cs[n - 1] == '?'
    }
}

/// The base length, in ms, that a vowel of stress code `stress` is scaled to.
pub open spec fn stress_length(stress: u8) -> u32 {
    match stress {
        0 => 170,
        1 => 135,
        2 => 205,
        3 => 205,
        4 => 180,
        5 => 200,
        6 => 245,
        7 => 275,
        _ => 135,
    }
}

/// The base length, in ms, that a vowel of stress code `stress` is scaled to.
pub fn stress_length_ms(stress: u8) -> (r: u32)
    ensures
        r == stress_length(stress),
{
    match stress {
        0 => 170,
        1 => 135,
        2 => 205,
        3 => 205,
        4 => 180,
        5 => 200,
        6 => 245,
        7 => 275,
        _ => 135,
    }
}

/// The pitch level at which a vowel starts, by its stress.
#[derive(Clone, Copy, Debug, PartialEq, Eq, Structural)]
pub enum PitchAccent {
    /// Raised well above the base pitch (stress codes 6 and 7).
    High,
    /// Raised a little above the base pitch (stress codes 4 and 5).
    Mid,
    /// Below the base pitch (every other stress code).
    Low,
}

/// The pitch level of a vowel of stress code `stress`.
pub fn pitch_accent(stress: u8) -> (r: PitchAccent)
    ensures
        r == (if stress == 6 || stress == 7 {
            PitchAccent::High
        } else if stress == 4 || stress == 5 {
            PitchAccent::Mid
        } else {
            PitchAccent::Low
        }),
{
    if stress == 6 || stress == 7 {
        PitchAccent::High
    } else if stress == 4 || stress == 5 {
        PitchAccent::Mid
    } else {
        PitchAccent::Low
    }
}

/// How many of the last voiced events the question contour raises.
pub const RISE_COUNT: usize = 5;

/// The positions of the voiced events, in increasing order.
pub open spec fn voiced_positions(voiced: Seq<bool>) -> Seq<int>
    decreases voiced.len(),
{
    if voiced.len() == 0 {
        Seq::empty()
    } else {
        let prev = voiced_positions(voiced.drop_last());
        if voiced.last() {
            prev.push(voiced.len() - 1)
        } else {
            prev
        }
    }
}

/// The positions the question contour raises: the last `RISE_COUNT` voiced
/// ones, or all of them where there are fewer.
pub open spec fn contour_targets(voiced: Seq<bool>) -> Seq<int> {
    let p = voiced_positions(voiced);
    let n = if p.len() < RISE_COUNT { p.len() as int } else { RISE_COUNT as int };
    p.subrange(p.len() - n, p.len() as int)
}

/// The positions of the events that a rising question contour raises, given
/// which events are voiced; the `k`-th of them (from 0) takes step `k + 1` of
/// the contour.
pub fn rising_contour_targets(voiced: &[bool]) -> (r: Vec<usize>)
    ensures
        r@.len() == contour_targets(voiced@).len(),
        forall|k: int| 0 <= k < r@.len() ==> r@[k] as int == #[trigger] contour_targets(voiced@)[k],
{
    let mut all: Vec<usize> = Vec::new();
    let mut i: usize = 0;
    while i < voiced.len()
        invariant
            i <= voiced.len(),
            all@.len() == voiced_positions(voiced@.take(i as int)).len(),
            forall|k: int|
                0 <= k < all@.len() ==> all@[k] as int == #[trigger] voiced_positions(
                    voiced@.take(i as int),
                )[k],
        decreases voiced.len() - i,
    {
        assert(voiced@.take(i + 1).drop_last() =~= voiced@.take(i as int));
        if voiced[i] {
            all.push(i);
        }
        i = i + 1;
    }
    assert(voiced@.take(voiced.len() as int) =~= voiced@);
    let n = if all.len() < RISE_COUNT {
        all.len()
    } else {
        RISE_COUNT
    };
    let start = all.len() - n;
    let mut r: Vec<usize> = Vec::new();
    let mut j: usize = start;
    while j < all.len()
        invariant
            start <= j <= all.len(),
            start == all.len() - n,
            all@.len() == voiced_positions(voiced@).len(),
            forall|k: int| 0 <= k < all@.len() ==> all@[k] as int == #[trigger] voiced_positions(voiced@)[k],
            r@.len() == j - start,
            forall|k: int| 0 <= k < r@.len() ==> r@[k] == all@[start + k],
        decreases all.len() - j,
    {
        r.push(all[j]);
        j = j + 1;
    }
    r
}

/// The plan ends with the closing pause and holds at most one event per code
/// before it; every planned phoneme carries a stress code from 1 to 7, and the
/// pending stress after any code stream is one of them.
pub proof fn lemma_plan_shape(codes: Seq<SpeechCode>, table: Seq<Option<PhonemeEntry>>)
    ensures
        1 <= plan_state(codes, table).0 <= 7,
        planned_events(codes, table).len() <= codes.len() + 1,
        planned_events(codes, table).last() == EventPlan::ClosingPause,
        forall|k: int|
            0 <= k < planned_events(codes, table).len() - 1 ==> (#[trigger] planned_events(
                codes,
                table,
            )[k] matches EventPlan::Phone { stress, .. } && 1 <= stress <= 7),
    decreases codes.len(),
{
    if codes.len() > 0 {
        let prev = codes.drop_last();
        lemma_plan_shape(prev, table);
        let before = plan_state(prev, table).1;
        assert forall|k: int| 0 <= k < before.len() implies (#[trigger] before[k] matches EventPlan::Phone {
            stress,
            ..
        } && 1 <= stress <= 7) by {
            assert(planned_events(prev, table)[k] == before[k]);
        }
    }
}

/// The inventory phoneme that a code names: a code that is not a boundary,
/// is above the stress codes, has an entry in the table, and whose entry's
/// mnemonic is in the inventory.
pub open spec fn phoneme_of_code(c: SpeechCode, table: Seq<Option<PhonemeEntry>>) -> Option<Phoneme> {
    if c.is_boundary || c.code <= 7 {
        None
    } else {
        match table_entry(table, c.code) {
            Some(e) => lookup_mnemonic(mnemonic_text(e.mnemonic, 4)),
            None => None,
        }
    }
}

/// The inventory phonemes that the codes name, in order.
pub open spec fn phonemes_of_codes(codes: Seq<SpeechCode>, table: Seq<Option<PhonemeEntry>>) -> Seq<
    Phoneme,
>
    decreases codes.len(),
{
    if codes.len() == 0 {
        Seq::empty()
    } else {
        let prev = phonemes_of_codes(codes.drop_last(), table);
        match phoneme_of_code(codes.last(), table) {
            Some(p) => prev.push(p),
            None => prev,
        }
    }
}

/// The plan holds one event per code that names an inventory phoneme, in
/// order and for that phoneme, then the closing pause: boundaries, pauses,
/// stress codes, codes without a table entry and mnemonics outside the
/// inventory add no event.
pub proof fn lemma_plan_events_count(codes: Seq<SpeechCode>, table: Seq<Option<PhonemeEntry>>)
    ensures
        planned_events(codes, table).len() == phonemes_of_codes(codes, table).len() + 1,
        forall|j: int|
            0 <= j < phonemes_of_codes(codes, table).len() ==> (#[trigger] planned_events(
                codes,
                table,
            )[j] matches EventPlan::Phone { phoneme, .. } && phoneme == phonemes_of_codes(
                codes,
                table,
            )[j]),
    decreases codes.len(),
{
    if codes.len() > 0 {
        let prev = codes.drop_last();
        lemma_plan_events_count(prev, table);
        let before = plan_state(prev, table).1;
        let names = phonemes_of_codes(prev, table);
        assert forall|j: int| 0 <= j < names.len() implies (#[trigger] before[j] matches EventPlan::Phone {
            phoneme,
            ..
        } && phoneme == names[j]) by {
            assert(planned_events(prev, table)[j] == before[j]);
        }
    }
}

/// Whether `c` is a stress code: not a boundary, and a code from 1 to 7.
pub open spec fn is_stress_mark(c: SpeechCode) -> bool {
    !c.is_boundary && 1 <= c.code <= 7
}

/// Whether `c` reads a vowel: not a boundary, a code above the stress codes,
/// and a table entry of type `PH_VOWEL` (whether or not its mnemonic is in
/// the inventory).
pub open spec fn reads_vowel(c: SpeechCode, table: Seq<Option<PhonemeEntry>>) -> bool {
    &&& !c.is_boundary
    &&& c.code > 7
    &&& table_entry(table, c.code) matches Some(e) && e.typ == PH_VOWEL
}

/// `s` is the stress in force after reading `codes`: the code of the last
/// stress code read since the last vowel, or 1 where there is none.
pub open spec fn stress_in_force(codes: Seq<SpeechCode>, table: Seq<Option<PhonemeEntry>>, s: u8) -> bool {
    ||| exists|k: int|
        #![trigger codes[k]]
        0 <= k < codes.len() && is_stress_mark(codes[k]) && codes[k].code == s && forall|j: int|
            #![trigger codes[j]]
            k < j < codes.len() ==> !is_stress_mark(codes[j]) && !reads_vowel(codes[j], table)
    ||| s == 1 && forall|k: int|
        #![trigger codes[k]]
        0 <= k < codes.len() && is_stress_mark(codes[k]) ==> exists|j: int|
            #![trigger codes[j]]
            k < j < codes.len() && reads_vowel(codes[j], table)
}

/// At most one stress is in force after any code stream.
pub proof fn lemma_stress_in_force_unique(
    codes: Seq<SpeechCode>,
    table: Seq<Option<PhonemeEntry>>,
    s1: u8,
    s2: u8,
)
    requires
        stress_in_force(codes, table, s1),
        stress_in_force(codes, table, s2),
    ensures
        s1 == s2,
{
    let n = codes.len();
    let first1 = exists|k: int|
        #![trigger codes[k]]
        0 <= k < n && is_stress_mark(codes[k]) && codes[k].code == s1 && forall|j: int|
            #![trigger codes[j]]
            k < j < n ==> !is_stress_mark(codes[j]) && !reads_vowel(codes[j], table);
    let first2 = exists|k: int|
        #![trigger codes[k]]
        0 <= k < n && is_stress_mark(codes[k]) && codes[k].code == s2 && forall|j: int|
            #![trigger codes[j]]
            k < j < n ==> !is_stress_mark(codes[j]) && !reads_vowel(codes[j], table);
    if first1 && first2 {
        let k1 = choose|k: int|
            #![trigger codes[k]]
            0 <= k < n && is_stress_mark(codes[k]) && codes[k].code == s1 && forall|j: int|
                #![trigger codes[j]]
                k < j < n ==> !is_stress_mark(codes[j]) && !reads_vowel(codes[j], table);
        let k2 = choose|k: int|
            #![trigger codes[k]]
            0 <= k < n && is_stress_mark(codes[k]) && codes[k].code == s2 && forall|j: int|
                #![trigger codes[j]]
                k < j < n ==> !is_stress_mark(codes[j]) && !reads_vowel(codes[j], table);
        assert(codes[k1] == codes[k2]) by {
            if k1 < k2 {
                assert(!is_stress_mark(codes[k2]));
            } else if k2 < k1 {
                assert(!is_stress_mark(codes[k1]));
            }
        }
    } else if first1 {
        let k1 = choose|k: int|
            #![trigger codes[k]]
            0 <= k < n && is_stress_mark(codes[k]) && codes[k].code == s1 && forall|j: int|
                #![trigger codes[j]]
                k < j < n ==> !is_stress_mark(codes[j]) && !reads_vowel(codes[j], table);
        assert(is_stress_mark(codes[k1]));
    } else if first2 {
        let k2 = choose|k: int|
            #![trigger codes[k]]
            0 <= k < n && is_stress_mark(codes[k]) && codes[k].code == s2 && forall|j: int|
                #![trigger codes[j]]
                k < j < n ==> !is_stress_mark(codes[j]) && !reads_vowel(codes[j], table);
        assert(is_stress_mark(codes[k2]));
    }
}

/// The pending stress of the plan is the stress in force.
proof fn lemma_plan_stress_in_force(codes: Seq<SpeechCode>, table: Seq<Option<PhonemeEntry>>)
    ensures
        stress_in_force(codes, table, plan_state(codes, table).0),
    decreases codes.len(),
{
    if codes.len() > 0 {
        let prev = codes.drop_last();
        lemma_plan_stress_in_force(prev, table);
        let n = codes.len();
        let c = codes.last();
        let s0 = plan_state(prev, table).0;
        let s = plan_state(codes, table).0;
        assert forall|j: int| 0 <= j < prev.len() implies #[trigger] prev[j] == codes[j] by {}
        if is_stress_mark(c) {
            assert(codes[n - 1] == c);
            assert(s == c.code);
        } else if reads_vowel(c, table) {
            assert(s == 1);
            assert forall|k: int| 0 <= k < n && #[trigger] is_stress_mark(codes[k]) implies exists|
                j: int,
            |
                #![trigger codes[j]]
                k < j < n && reads_vowel(codes[j], table) by {
                if k == n - 1 {
                    assert(is_stress_mark(c));
                } else {
                    assert(codes[n - 1] == c);
                }
            }
        } else {
            assert(s == s0);
            let first0 = exists|k: int|
                #![trigger prev[k]]
                0 <= k < prev.len() && is_stress_mark(prev[k]) && prev[k].code == s0 && forall|
                    j: int,
                |
                    #![trigger prev[j]]
                    k < j < prev.len() ==> !is_stress_mark(prev[j]) && !reads_vowel(prev[j], table);
            if first0 {
                let k0 = choose|k: int|
                    #![trigger prev[k]]
                    0 <= k < prev.len() && is_stress_mark(prev[k]) && prev[k].code == s0 && forall|
                        j: int,
                    |
                        #![trigger prev[j]]
                        k < j < prev.len() ==> !is_stress_mark(prev[j]) && !reads_vowel(
                            prev[j],
                            table,
                        );
                assert(codes[k0] == prev[k0]);
                assert forall|j: int| k0 < j < n implies !is_stress_mark(#[trigger] codes[j])
                    && !reads_vowel(codes[j], table) by {
                    if j < n - 1 {
                        assert(prev[j] == codes[j]);
                    }
                }
            } else {
                assert forall|k: int| 0 <= k < n && #[trigger] is_stress_mark(codes[k]) implies exists|
                    j: int,
                |
                    #![trigger codes[j]]
                    k < j < n && reads_vowel(codes[j], table) by {
                    assert(k < n - 1);
                    assert(prev[k] == codes[k]);
                    assert(is_stress_mark(prev[k]));
                    let j0 = choose|j: int|
                        #![trigger prev[j]]
                        k < j < prev.len() && reads_vowel(prev[j], table);
                    assert(prev[j0] == codes[j0]);
                }
            }
        }
    }
}

/// Reading one more code: a code that names no inventory phoneme leaves the
/// plan as it was; one that names phoneme `p` adds, before the closing
/// pause, a `Phone` of `p` with the stress in force, marked as a vowel
/// exactly when its table entry has type `PH_VOWEL`, and with the entry's
/// standard length.
pub proof fn lemma_plan_of_appended_code(
    codes: Seq<SpeechCode>,
    table: Seq<Option<PhonemeEntry>>,
    c: SpeechCode,
)
    ensures
        phoneme_of_code(c, table) is None ==> planned_events(codes.push(c), table)
            == planned_events(codes, table),
        phoneme_of_code(c, table) matches Some(p) ==> exists|s: u8|
            stress_in_force(codes, table, s) && planned_events(codes.push(c), table)
                == planned_events(codes, table).drop_last().push(
                EventPlan::Phone {
                    phoneme: p,
                    stress: s,
                    is_vowel: table_entry(table, c.code)->Some_0.typ == PH_VOWEL,
                    std_length: table_entry(table, c.code)->Some_0.std_length,
                },
            ).push(EventPlan::ClosingPause),
{
    let longer = codes.push(c);
    assert(longer.drop_last() =~= codes);
    assert(longer.last() == c);
    lemma_plan_stress_in_force(codes, table);
    assert(planned_events(codes, table).drop_last() =~= plan_state(codes, table).1);
    if let Some(p) = phoneme_of_code(c, table) {
        let s = plan_state(codes, table).0;
        assert(stress_in_force(codes, table, s));
    }
}

/// `voiced_positions` lists every voiced position once, in increasing order,
/// and nothing else.
pub proof fn lemma_voiced_positions(voiced: Seq<bool>)
    ensures
        forall|k: int|
            0 <= k < voiced_positions(voiced).len() ==> 0 <= #[trigger] voiced_positions(voiced)[k]
                < voiced.len() && voiced[voiced_positions(voiced)[k]],
        forall|j: int, k: int|
            0 <= j < k < voiced_positions(voiced).len() ==> voiced_positions(voiced)[j]
                < voiced_positions(voiced)[k],
        forall|i: int|
            0 <= i < voiced.len() && #[trigger] voiced[i] ==> voiced_positions(voiced).contains(i),
    decreases voiced.len(),
{
    if voiced.len() > 0 {
        let prev = voiced.drop_last();
        lemma_voiced_positions(prev);
        assert forall|i: int| 0 <= i < voiced.len() && #[trigger] voiced[i] implies voiced_positions(
            voiced,
        ).contains(i) by {
            if i < voiced.len() - 1 {
                assert(prev[i] == voiced[i]);
                let k = choose|k: int| 0 <= k < voiced_positions(prev).len() && voiced_positions(prev)[k] == i;
                assert(voiced_positions(voiced)[k] == i);
            } else {
                assert(voiced_positions(voiced).last() == i);
            }
        }
    }
}

/// The question contour raises voiced events only, each once and in order:
/// the last `RISE_COUNT` voiced events, or all of them where there are fewer.
pub proof fn lemma_contour_targets(voiced: Seq<bool>)
    ensures
        contour_targets(voiced).len() == (if voiced_positions(voiced).len() < RISE_COUNT {
            voiced_positions(voiced).len() as int
        } else {
            RISE_COUNT as int
        }),
        forall|k: int|
            0 <= k < contour_targets(voiced).len() ==> 0 <= #[trigger] contour_targets(voiced)[k]
                < voiced.len() && voiced[contour_targets(voiced)[k]],
        forall|j: int, k: int|
            0 <= j < k < contour_targets(voiced).len() ==> contour_targets(voiced)[j]
                < contour_targets(voiced)[k],
        forall|i: int|
            0 <= i < voiced.len() && #[trigger] voiced[i] && (contour_targets(voiced).len()
                < RISE_COUNT || contour_targets(voiced)[0] <= i) ==> contour_targets(
                voiced,
            ).contains(i),
{
    lemma_voiced_positions(voiced);
    let p = voiced_positions(voiced);
    let t = contour_targets(voiced);
    let start = p.len() - t.len();
    assert forall|i: int|
        0 <= i < voiced.len() && #[trigger] voiced[i] && (t.len() < RISE_COUNT || t[0] <= i) implies t.contains(
        i,
    ) by {
        let k = choose|k: int| 0 <= k < p.len() && p[k] == i;
        if k < start {
            assert(p[k] < p[start]);
        }
        assert(t[k - start] == i);
    }
}

} // verus!
