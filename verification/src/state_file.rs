//! The state file: `key=value` lines that hold the settings and the
//! statistics. Reading it is forgiving (unknown keys, comments and malformed
//! lines are passed over); writing it produces a file that reads back to the
//! same state.

use crate::config::{Settings, Stats, clamp_spec, clamp_u32};
use vstd::prelude::*;

verus! {

// ---------------------------------------------------------------------------
// Whitespace, as `char::is_whitespace` has it, over UTF-8 bytes.

/// The ASCII whitespace characters: tab, line feed, vertical tab, form feed,
/// carriage return and space.
pub open spec fn is_ascii_ws(b: u8) -> bool {
    b == 0x20 || (0x09 <= b && b <= 0x0d)
}

/// U+0085 and U+00A0 in UTF-8.
pub open spec fn is_ws_pair(a: u8, b: u8) -> bool {
    a == 0xc2 && (b == 0x85 || b == 0xa0)
}

/// U+1680, U+2000..=U+200A, U+2028, U+2029, U+202F, U+205F and U+3000 in UTF-8.
pub open spec fn is_ws_triple(a: u8, b: u8, c: u8) -> bool {
    ||| (a == 0xe1 && b == 0x9a && c == 0x80)
    ||| (a == 0xe2 && b == 0x80 && ((0x80 <= c && c <= 0x8a) || c == 0xa8 || c == 0xa9 || c == 0xaf))
    ||| (a == 0xe2 && b == 0x81 && c == 0x9f)
    ||| (a == 0xe3 && b == 0x80 && c == 0x80)
}

/// Byte length of the whitespace character that starts at `i` and ends by
/// `hi`; zero when there is none.
pub open spec fn ws_len_at(t: Seq<u8>, i: int, hi: int) -> int {
    if i < hi && is_ascii_ws(t[i]) {
        1
    } else if i + 2 <= hi && is_ws_pair(t[i], t[i + 1]) {
        2
    } else if i + 3 <= hi && is_ws_triple(t[i], t[i + 1], t[i + 2]) {
        3
    } else {
        0
    }
}

/// Byte length of the whitespace character that ends at `j` and starts no
/// earlier than `lo`; zero when there is none.
pub open spec fn ws_len_before(t: Seq<u8>, lo: int, j: int) -> int {
    if lo < j && is_ascii_ws(t[j - 1]) {
        1
    } else if lo + 2 <= j && is_ws_pair(t[j - 2], t[j - 1]) {
        2
    } else if lo + 3 <= j && is_ws_triple(t[j - 3], t[j - 2], t[j - 1]) {
        3
    } else {
        0
    }
}

/// Start of `t[i..hi]` once its leading whitespace is passed over.
pub open spec fn skip_ws(t: Seq<u8>, i: int, hi: int) -> int
    decreases hi - i,
{
    if i < hi && ws_len_at(t, i, hi) > 0 {
        skip_ws(t, i + ws_len_at(t, i, hi), hi)
    } else {
        i
    }
}

/// End of `t[lo..j]` once its trailing whitespace is cut off.
pub open spec fn back_ws(t: Seq<u8>, lo: int, j: int) -> int
    decreases j - lo,
{
    if lo < j && ws_len_before(t, lo, j) > 0 {
        back_ws(t, lo, j - ws_len_before(t, lo, j))
    } else {
        j
    }
}

/// Index of the first `c` in `t[i..hi]`, or `hi` when there is none.
pub open spec fn find_byte(t: Seq<u8>, i: int, hi: int, c: u8) -> int
    decreases hi - i,
{
    if i >= hi {
        hi
    } else if t[i] == c {
        i
    } else {
        find_byte(t, i + 1, hi, c)
    }
}

pub proof fn lemma_find_byte_bounds(t: Seq<u8>, i: int, hi: int, c: u8)
    requires
        i <= hi,
    ensures
        i <= find_byte(t, i, hi, c) <= hi,
    decreases hi - i,
{
    if i < hi && t[i] != c {
        lemma_find_byte_bounds(t, i + 1, hi, c);
    }
}

fn ws_len_at_exec(t: &[u8], i: usize, hi: usize) -> (n: usize)
    requires
        i <= hi <= t.len(),
    ensures
        n == ws_len_at(t@, i as int, hi as int),
{
    if i < hi && (t[i] == 0x20 || (0x09 <= t[i] && t[i] <= 0x0d)) {
        1
    } else if hi - i >= 2 && t[i] == 0xc2 && (t[i + 1] == 0x85 || t[i + 1] == 0xa0) {
        2
    } else if hi - i >= 3 && ((t[i] == 0xe1 && t[i + 1] == 0x9a && t[i + 2] == 0x80) || (t[i]
        == 0xe2 && t[i + 1] == 0x80 && ((0x80 <= t[i + 2] && t[i + 2] <= 0x8a) || t[i + 2]
        == 0xa8 || t[i + 2] == 0xa9 || t[i + 2] == 0xaf)) || (t[i] == 0xe2 && t[i + 1] == 0x81
        && t[i + 2] == 0x9f) || (t[i] == 0xe3 && t[i + 1] == 0x80 && t[i + 2] == 0x80)) {
        3
    } else {
        0
    }
}

fn ws_len_before_exec(t: &[u8], lo: usize, j: usize) -> (n: usize)
    requires
        lo <= j <= t.len(),
    ensures
        n == ws_len_before(t@, lo as int, j as int),
{
    if lo < j && (t[j - 1] == 0x20 || (0x09 <= t[j - 1] && t[j - 1] <= 0x0d)) {
        1
    } else if j - lo >= 2 && t[j - 2] == 0xc2 && (t[j - 1] == 0x85 || t[j - 1] == 0xa0) {
        2
    } else if j - lo >= 3 && ((t[j - 3] == 0xe1 && t[j - 2] == 0x9a && t[j - 1] == 0x80) || (t[j
        - 3] == 0xe2 && t[j - 2] == 0x80 && ((0x80 <= t[j - 1] && t[j - 1] <= 0x8a) || t[j - 1]
        == 0xa8 || t[j - 1] == 0xa9 || t[j - 1] == 0xaf)) || (t[j - 3] == 0xe2 && t[j - 2] == 0x81
        && t[j - 1] == 0x9f) || (t[j - 3] == 0xe3 && t[j - 2] == 0x80 && t[j - 1] == 0x80)) {
        3
    } else {
        0
    }
}

fn skip_ws_exec(t: &[u8], i: usize, hi: usize) -> (r: usize)
    requires
        i <= hi <= t.len(),
    ensures
        r == skip_ws(t@, i as int, hi as int),
        i <= r <= hi,
{
    let mut k = i;
    loop
        invariant
            i <= k <= hi <= t.len(),
            skip_ws(t@, i as int, hi as int) == skip_ws(t@, k as int, hi as int),
        decreases hi - k,
    {
        if k >= hi {
            return k;
        }
        let n = ws_len_at_exec(t, k, hi);
        if n == 0 {
            return k;
        }
        k = k + n;
    }
}

fn back_ws_exec(t: &[u8], lo: usize, j: usize) -> (r: usize)
    requires
        lo <= j <= t.len(),
    ensures
        r == back_ws(t@, lo as int, j as int),
        lo <= r <= j,
{
    let mut k = j;
    loop
        invariant
            lo <= k <= j <= t.len(),
            back_ws(t@, lo as int, j as int) == back_ws(t@, lo as int, k as int),
        decreases k - lo,
    {
        if k <= lo {
            return k;
        }
        let n = ws_len_before_exec(t, lo, k);
        if n == 0 {
            return k;
        }
        k = k - n;
    }
}

fn find_byte_exec(t: &[u8], i: usize, hi: usize, c: u8) -> (r: usize)
    requires
        i <= hi <= t.len(),
    ensures
        r == find_byte(t@, i as int, hi as int, c),
        i <= r <= hi,
{
    let mut k = i;
    while k < hi
        invariant
            i <= k <= hi <= t.len(),
            find_byte(t@, i as int, hi as int, c) == find_byte(t@, k as int, hi as int, c),
        decreases hi - k,
    {
        if t[k] == c {
            return k;
        }
        k = k + 1;
    }
    k
}


// ---------------------------------------------------------------------------
// Unsigned decimal numbers, as `u64::from_str` reads them.

pub open spec fn is_digit(b: u8) -> bool {
    0x30 <= b && b <= 0x39
}

pub open spec fn all_digits(s: Seq<u8>) -> bool {
    forall|i: int| 0 <= i < s.len() ==> is_digit(#[trigger] s[i])
}

/// The number that a string of decimal digits denotes.
pub open spec fn digits_value(s: Seq<u8>) -> nat
    decreases s.len(),
{
    if s.len() == 0 {
        0
    } else {
        digits_value(s.drop_last()) * 10 + (s.last() - 0x30) as nat
    }
}

/// What `u64::from_str` gives, `None` for its errors: an optional `+`, then
/// at least one digit, denoting at most `u64::MAX`.
pub open spec fn parse_u64(s: Seq<u8>) -> Option<u64> {
    let d = if s.len() > 0 && s[0] == 0x2b {
        s.drop_first()
    } else {
        s
    };
    if d.len() == 0 || !all_digits(d) || digits_value(d) > u64::MAX {
        None
    } else {
        Some(digits_value(d) as u64)
    }
}

proof fn lemma_digits_value_prefix(s: Seq<u8>, k: int)
    requires
        0 <= k <= s.len(),
        all_digits(s),
    ensures
        digits_value(s.subrange(0, k)) <= digits_value(s),
    decreases s.len() - k,
{
    if k < s.len() {
        let a = s.subrange(0, k);
        let b = s.subrange(0, k + 1);
        assert(b.drop_last() =~= a);
        assert(is_digit(b.last()));
        lemma_digits_value_prefix(s, k + 1);
    } else {
        assert(s.subrange(0, k) =~= s);
    }
}

/// `parse_u64` of `t[a..b]`.
fn parse_u64_exec(t: &[u8], a: usize, b: usize) -> (r: Option<u64>)
    requires
        a <= b <= t.len(),
    ensures
        r == parse_u64(t@.subrange(a as int, b as int)),
{
    let ghost s = t@.subrange(a as int, b as int);
    let start = if a < b && t[a] == 0x2b {
        a + 1
    } else {
        a
    };
    let ghost d = t@.subrange(start as int, b as int);
    assert(d =~= (if s.len() > 0 && s[0] == 0x2b {
        s.drop_first()
    } else {
        s
    }));
    if start >= b {
        return None;
    }
    let mut i = start;
    while i < b
        invariant
            start <= i <= b <= t.len(),
            forall|k: int| start <= k < i ==> is_digit(t@[k]),
            d == t@.subrange(start as int, b as int),
            s == t@.subrange(a as int, b as int),
            d == (if s.len() > 0 && s[0] == 0x2b {
                s.drop_first()
            } else {
                s
            }),
        decreases b - i,
    {
        if !(0x30 <= t[i] && t[i] <= 0x39) {
            assert(!is_digit(d[i - start]));
            return None;
        }
        i = i + 1;
    }
    assert forall|k: int| 0 <= k < d.len() implies is_digit(#[trigger] d[k]) by {
        assert(d[k] == t@[start + k]);
    }
    let mut acc: u64 = 0;
    let mut i = start;
    while i < b
        invariant
            start <= i <= b <= t.len(),
            d == t@.subrange(start as int, b as int),
            s == t@.subrange(a as int, b as int),
            d == (if s.len() > 0 && s[0] == 0x2b {
                s.drop_first()
            } else {
                s
            }),
            d.len() > 0,
            all_digits(d),
            acc == digits_value(t@.subrange(start as int, i as int)),
        decreases b - i,
    {
        let ghost pre = t@.subrange(start as int, i as int);
        let ghost next = t@.subrange(start as int, i + 1);
        assert(next.drop_last() =~= pre);
        assert(next.last() == t@[i as int]);
        assert(is_digit(d[i - start]));
        let digit = (t[i] - 0x30) as u64;
        if acc > (u64::MAX - digit) / 10 {
            proof {
                assert(digits_value(next) > u64::MAX);
                assert(next =~= d.subrange(0, i + 1 - start));
                lemma_digits_value_prefix(d, i + 1 - start);
            }
            return None;
        }
        acc = acc * 10 + digit;
        i = i + 1;
    }
    assert(t@.subrange(start as int, b as int) =~= d);
    Some(acc)
}


// ---------------------------------------------------------------------------
// Keys and values.

/// The keys that the state file knows.
#[derive(Clone, Copy, PartialEq, Eq, Debug, Structural)]
pub enum Key {
    WorkMins,
    ShortMins,
    LongMins,
    LongInterval,
    AutoStartBreaks,
    AutoStartFocus,
    Notifications,
    Sound,
    Day,
    TodaySessions,
    TodayFocusSecs,
    TotalSessions,
    TotalFocusSecs,
}

pub open spec fn key_word(k: Key) -> Seq<u8> {
    match k {
        Key::WorkMins => seq![119u8, 111u8, 114u8, 107u8, 95u8, 109u8, 105u8, 110u8, 115u8],
        Key::ShortMins => seq![115u8, 104u8, 111u8, 114u8, 116u8, 95u8, 109u8, 105u8, 110u8, 115u8],
        Key::LongMins => seq![108u8, 111u8, 110u8, 103u8, 95u8, 109u8, 105u8, 110u8, 115u8],
        Key::LongInterval => seq![108u8, 111u8, 110u8, 103u8, 95u8, 105u8, 110u8, 116u8, 101u8, 114u8, 118u8, 97u8, 108u8],
        Key::AutoStartBreaks => seq![97u8, 117u8, 116u8, 111u8, 95u8, 115u8, 116u8, 97u8, 114u8, 116u8, 95u8, 98u8, 114u8, 101u8, 97u8, 107u8, 115u8],
        Key::AutoStartFocus => seq![97u8, 117u8, 116u8, 111u8, 95u8, 115u8, 116u8, 97u8, 114u8, 116u8, 95u8, 102u8, 111u8, 99u8, 117u8, 115u8],
        Key::Notifications => seq![110u8, 111u8, 116u8, 105u8, 102u8, 105u8, 99u8, 97u8, 116u8, 105u8, 111u8, 110u8, 115u8],
        Key::Sound => seq![115u8, 111u8, 117u8, 110u8, 100u8],
        Key::Day => seq![100u8, 97u8, 121u8],
        Key::TodaySessions => seq![116u8, 111u8, 100u8, 97u8, 121u8, 95u8, 115u8, 101u8, 115u8, 115u8, 105u8, 111u8, 110u8, 115u8],
        Key::TodayFocusSecs => seq![116u8, 111u8, 100u8, 97u8, 121u8, 95u8, 102u8, 111u8, 99u8, 117u8, 115u8, 95u8, 115u8, 101u8, 99u8, 115u8],
        Key::TotalSessions => seq![116u8, 111u8, 116u8, 97u8, 108u8, 95u8, 115u8, 101u8, 115u8, 115u8, 105u8, 111u8, 110u8, 115u8],
        Key::TotalFocusSecs => seq![116u8, 111u8, 116u8, 97u8, 108u8, 95u8, 102u8, 111u8, 99u8, 117u8, 115u8, 95u8, 115u8, 101u8, 99u8, 115u8],
    }
}

fn key_word_exec(k: Key) -> (w: Vec<u8>)
    ensures
        w@ == key_word(k),
{
    match k {
        Key::WorkMins => vec![119u8, 111u8, 114u8, 107u8, 95u8, 109u8, 105u8, 110u8, 115u8],
        Key::ShortMins => vec![115u8, 104u8, 111u8, 114u8, 116u8, 95u8, 109u8, 105u8, 110u8, 115u8],
        Key::LongMins => vec![108u8, 111u8, 110u8, 103u8, 95u8, 109u8, 105u8, 110u8, 115u8],
        Key::LongInterval => vec![108u8, 111u8, 110u8, 103u8, 95u8, 105u8, 110u8, 116u8, 101u8, 114u8, 118u8, 97u8, 108u8],
        Key::AutoStartBreaks => vec![97u8, 117u8, 116u8, 111u8, 95u8, 115u8, 116u8, 97u8, 114u8, 116u8, 95u8, 98u8, 114u8, 101u8, 97u8, 107u8, 115u8],
        Key::AutoStartFocus => vec![97u8, 117u8, 116u8, 111u8, 95u8, 115u8, 116u8, 97u8, 114u8, 116u8, 95u8, 102u8, 111u8, 99u8, 117u8, 115u8],
        Key::Notifications => vec![110u8, 111u8, 116u8, 105u8, 102u8, 105u8, 99u8, 97u8, 116u8, 105u8, 111u8, 110u8, 115u8],
        Key::Sound => vec![115u8, 111u8, 117u8, 110u8, 100u8],
        Key::Day => vec![100u8, 97u8, 121u8],
        Key::TodaySessions => vec![116u8, 111u8, 100u8, 97u8, 121u8, 95u8, 115u8, 101u8, 115u8, 115u8, 105u8, 111u8, 110u8, 115u8],
        Key::TodayFocusSecs => vec![116u8, 111u8, 100u8, 97u8, 121u8, 95u8, 102u8, 111u8, 99u8, 117u8, 115u8, 95u8, 115u8, 101u8, 99u8, 115u8],
        Key::TotalSessions => vec![116u8, 111u8, 116u8, 97u8, 108u8, 95u8, 115u8, 101u8, 115u8, 115u8, 105u8, 111u8, 110u8, 115u8],
        Key::TotalFocusSecs => vec![116u8, 111u8, 116u8, 97u8, 108u8, 95u8, 102u8, 111u8, 99u8, 117u8, 115u8, 95u8, 115u8, 101u8, 99u8, 115u8],
    }
}

/// The key that `s` names, if any.
pub open spec fn key_of(s: Seq<u8>) -> Option<Key> {
    if s == key_word(Key::WorkMins) {
        Some(Key::WorkMins)
    } else
    if s == key_word(Key::ShortMins) {
        Some(Key::ShortMins)
    } else
    if s == key_word(Key::LongMins) {
        Some(Key::LongMins)
    } else
    if s == key_word(Key::LongInterval) {
        Some(Key::LongInterval)
    } else
    if s == key_word(Key::AutoStartBreaks) {
        Some(Key::AutoStartBreaks)
    } else
    if s == key_word(Key::AutoStartFocus) {
        Some(Key::AutoStartFocus)
    } else
    if s == key_word(Key::Notifications) {
        Some(Key::Notifications)
    } else
    if s == key_word(Key::Sound) {
        Some(Key::Sound)
    } else
    if s == key_word(Key::Day) {
        Some(Key::Day)
    } else
    if s == key_word(Key::TodaySessions) {
        Some(Key::TodaySessions)
    } else
    if s == key_word(Key::TodayFocusSecs) {
        Some(Key::TodayFocusSecs)
    } else
    if s == key_word(Key::TotalSessions) {
        Some(Key::TotalSessions)
    } else
    if s == key_word(Key::TotalFocusSecs) {
        Some(Key::TotalFocusSecs)
    } else {
        None
    }
}

/// Whether `t[a..b]` is `w`.
fn slice_is(t: &[u8], a: usize, b: usize, w: &Vec<u8>) -> (r: bool)
    requires
        a <= b <= t.len(),
    ensures
        r == (t@.subrange(a as int, b as int) == w@),
{
    if b - a != w.len() {
        return false;
    }
    let mut i: usize = 0;
    while i < w.len()
        invariant
            b - a == w.len(),
            a <= b <= t.len(),
            i <= w.len(),
            forall|k: int| 0 <= k < i ==> t@[a + k] == w@[k],
        decreases w.len() - i,
    {
        if t[a + i] != w[i] {
            assert(t@.subrange(a as int, b as int)[i as int] != w@[i as int]);
            return false;
        }
        i = i + 1;
    }
    assert(t@.subrange(a as int, b as int) =~= w@);
    true
}

fn key_of_exec(t: &[u8], a: usize, b: usize) -> (r: Option<Key>)
    requires
        a <= b <= t.len(),
    ensures
        r == key_of(t@.subrange(a as int, b as int)),
{
    if slice_is(t, a, b, &key_word_exec(Key::WorkMins)) {
        return Some(Key::WorkMins);
    }
    if slice_is(t, a, b, &key_word_exec(Key::ShortMins)) {
        return Some(Key::ShortMins);
    }
    if slice_is(t, a, b, &key_word_exec(Key::LongMins)) {
        return Some(Key::LongMins);
    }
    if slice_is(t, a, b, &key_word_exec(Key::LongInterval)) {
        return Some(Key::LongInterval);
    }
    if slice_is(t, a, b, &key_word_exec(Key::AutoStartBreaks)) {
        return Some(Key::AutoStartBreaks);
    }
    if slice_is(t, a, b, &key_word_exec(Key::AutoStartFocus)) {
        return Some(Key::AutoStartFocus);
    }
    if slice_is(t, a, b, &key_word_exec(Key::Notifications)) {
        return Some(Key::Notifications);
    }
    if slice_is(t, a, b, &key_word_exec(Key::Sound)) {
        return Some(Key::Sound);
    }
    if slice_is(t, a, b, &key_word_exec(Key::Day)) {
        return Some(Key::Day);
    }
    if slice_is(t, a, b, &key_word_exec(Key::TodaySessions)) {
        return Some(Key::TodaySessions);
    }
    if slice_is(t, a, b, &key_word_exec(Key::TodayFocusSecs)) {
        return Some(Key::TodayFocusSecs);
    }
    if slice_is(t, a, b, &key_word_exec(Key::TotalSessions)) {
        return Some(Key::TotalSessions);
    }
    if slice_is(t, a, b, &key_word_exec(Key::TotalFocusSecs)) {
        return Some(Key::TotalFocusSecs);
    }
    None
}

pub open spec fn word_true() -> Seq<u8> {
    seq![116u8, 114u8, 117u8, 101u8]
}

pub open spec fn word_false() -> Seq<u8> {
    seq![102u8, 97u8, 108u8, 115u8, 101u8]
}

/// The switch values: `true`, `1` and `yes` turn on, `false`, `0` and `no`
/// turn off; anything else leaves the switch as it was.
pub open spec fn parse_flag(s: Seq<u8>) -> Option<bool> {
    if s == word_true() || s == seq![49u8] || s == seq![121u8, 101u8, 115u8] {
        Some(true)
    } else if s == word_false() || s == seq![48u8] || s == seq![110u8, 111u8] {
        Some(false)
    } else {
        None
    }
}

fn parse_flag_exec(t: &[u8], a: usize, b: usize) -> (r: Option<bool>)
    requires
        a <= b <= t.len(),
    ensures
        r == parse_flag(t@.subrange(a as int, b as int)),
{
    let w_true: Vec<u8> = vec![116u8, 114u8, 117u8, 101u8];
    let w_one: Vec<u8> = vec![49u8];
    let w_yes: Vec<u8> = vec![121u8, 101u8, 115u8];
    let w_false: Vec<u8> = vec![102u8, 97u8, 108u8, 115u8, 101u8];
    let w_zero: Vec<u8> = vec![48u8];
    let w_no: Vec<u8> = vec![110u8, 111u8];
    assert(w_true@ =~= word_true());
    assert(w_false@ =~= word_false());
    assert(w_one@ =~= seq![49u8]);
    assert(w_zero@ =~= seq![48u8]);
    assert(w_yes@ =~= seq![121u8, 101u8, 115u8]);
    assert(w_no@ =~= seq![110u8, 111u8]);
    if slice_is(t, a, b, &w_true) || slice_is(t, a, b, &w_one) || slice_is(t, a, b, &w_yes) {
        Some(true)
    } else if slice_is(t, a, b, &w_false) || slice_is(t, a, b, &w_zero) || slice_is(
        t,
        a,
        b,
        &w_no,
    ) {
        Some(false)
    } else {
        None
    }
}

/// The state after reading `key = v`: a length or switch that does not read
/// keeps its value, a statistic that does not read becomes zero; numbers are
/// cut to the width of their field as `as` does.
pub open spec fn apply_key(st: (Settings, Stats), k: Key, v: Seq<u8>) -> (Settings, Stats) {
    let (s, x) = st;
    let n = parse_u64(v);
    let n0: u64 = match n {
        Some(m) => m,
        None => 0,
    };
    let f = parse_flag(v);
    match k {
        Key::WorkMins => match n {
            Some(m) => (Settings { work_mins: m as u32, ..s }, x),
            None => st,
        },
        Key::ShortMins => match n {
            Some(m) => (Settings { short_mins: m as u32, ..s }, x),
            None => st,
        },
        Key::LongMins => match n {
            Some(m) => (Settings { long_mins: m as u32, ..s }, x),
            None => st,
        },
        Key::LongInterval => match n {
            Some(m) => (Settings { long_interval: m as u32, ..s }, x),
            None => st,
        },
        Key::AutoStartBreaks => match f {
            Some(b) => (Settings { auto_start_breaks: b, ..s }, x),
            None => st,
        },
        Key::AutoStartFocus => match f {
            Some(b) => (Settings { auto_start_focus: b, ..s }, x),
            None => st,
        },
        Key::Notifications => match f {
            Some(b) => (Settings { notifications: b, ..s }, x),
            None => st,
        },
        Key::Sound => match f {
            Some(b) => (Settings { sound: b, ..s }, x),
            None => st,
        },
        Key::Day => (s, Stats { day: n0, ..x }),
        Key::TodaySessions => (s, Stats { today_sessions: n0 as u32, ..x }),
        Key::TodayFocusSecs => (s, Stats { today_focus_secs: n0, ..x }),
        Key::TotalSessions => (s, Stats { total_sessions: n0 as u32, ..x }),
        Key::TotalFocusSecs => (s, Stats { total_focus_secs: n0, ..x }),
    }
}

fn apply_key_exec(st: (Settings, Stats), k: Key, t: &[u8], a: usize, b: usize) -> (r: (
    Settings,
    Stats,
))
    requires
        a <= b <= t.len(),
    ensures
        r == apply_key(st, k, t@.subrange(a as int, b as int)),
{
    let (mut s, mut x) = st;
    match k {
        Key::WorkMins | Key::ShortMins | Key::LongMins | Key::LongInterval => {
            match parse_u64_exec(t, a, b) {
                Some(m) => {
                    let m = m as u32;
                    match k {
                        Key::WorkMins => s.work_mins = m,
                        Key::ShortMins => s.short_mins = m,
                        Key::LongMins => s.long_mins = m,
                        _ => s.long_interval = m,
                    }
                },
                None => {},
            }
        },
        Key::AutoStartBreaks | Key::AutoStartFocus | Key::Notifications | Key::Sound => {
            match parse_flag_exec(t, a, b) {
                Some(f) => {
                    match k {
                        Key::AutoStartBreaks => s.auto_start_breaks = f,
                        Key::AutoStartFocus => s.auto_start_focus = f,
                        Key::Notifications => s.notifications = f,
                        _ => s.sound = f,
                    }
                },
                None => {},
            }
        },
        _ => {
            let n0 = match parse_u64_exec(t, a, b) {
                Some(m) => m,
                None => 0,
            };
            match k {
                Key::Day => x.day = n0,
                Key::TodaySessions => x.today_sessions = n0 as u32,
                Key::TodayFocusSecs => x.today_focus_secs = n0,
                Key::TotalSessions => x.total_sessions = n0 as u32,
                _ => x.total_focus_secs = n0,
            }
        },
    }
    (s, x)
}

// ---------------------------------------------------------------------------
// Lines and the whole file.

/// The state after reading the line `t[p..q]`: surrounding whitespace is
/// ignored; an empty line, a line that starts with `#` and a line without `=`
/// change nothing; otherwise the text before the first `=` is the key and the
/// text after it the value, each without surrounding whitespace.
pub open spec fn apply_line(st: (Settings, Stats), t: Seq<u8>, p: int, q: int) -> (
    Settings,
    Stats,
) {
    let a = skip_ws(t, p, q);
    let b = back_ws(t, a, q);
    if a >= b || t[a] == 0x23 {
        st
    } else {
        let e = find_byte(t, a, b, 0x3d);
        if e >= b {
            st
        } else {
            let ka = skip_ws(t, a, e);
            let kb = back_ws(t, ka, e);
            let va = skip_ws(t, e + 1, b);
            let vb = back_ws(t, va, b);
            match key_of(t.subrange(ka, kb)) {
                Some(k) => apply_key(st, k, t.subrange(va, vb)),
                None => st,
            }
        }
    }
}

/// The state after reading the lines of `t` from byte `p` on; lines end at
/// each `\n`.
pub open spec fn apply_from(st: (Settings, Stats), t: Seq<u8>, p: int) -> (Settings, Stats)
    decreases t.len() + 1 - p,
{
    if p < 0 || p >= t.len() {
        st
    } else {
        let q = find_byte(t, p, t.len() as int, 0x0a);
        proof {
            lemma_find_byte_bounds(t, p, t.len() as int, 0x0a);
        }
        apply_from(apply_line(st, t, p, q), t, q + 1)
    }
}

/// The lengths brought into their bounds, as a loaded file has them.
pub open spec fn clamped(s: Settings) -> Settings {
    Settings {
        work_mins: clamp_spec(s.work_mins as int, 1, 180) as u32,
        short_mins: clamp_spec(s.short_mins as int, 1, 60) as u32,
        long_mins: clamp_spec(s.long_mins as int, 1, 120) as u32,
        long_interval: clamp_spec(s.long_interval as int, 2, 12) as u32,
        ..s
    }
}

/// The settings and statistics that the state file `t` holds, before the
/// daily counters are rolled over: defaults where `t` says nothing, and the
/// lengths within their bounds.
pub open spec fn spec_parse_state(t: Seq<u8>) -> (Settings, Stats) {
    let (s, x) = apply_from((Settings::spec_default(), Stats::zero_on(0)), t, 0);
    (clamped(s), x)
}

fn apply_line_exec(st: (Settings, Stats), t: &[u8], p: usize, q: usize) -> (r: (Settings, Stats))
    requires
        p <= q <= t.len(),
    ensures
        r == apply_line(st, t@, p as int, q as int),
{
    let a = skip_ws_exec(t, p, q);
    let b = back_ws_exec(t, a, q);
    if a >= b || t[a] == 0x23 {
        return st;
    }
    let e = find_byte_exec(t, a, b, 0x3d);
    if e >= b {
        return st;
    }
    let ka = skip_ws_exec(t, a, e);
    let kb = back_ws_exec(t, ka, e);
    let va = skip_ws_exec(t, e + 1, b);
    let vb = back_ws_exec(t, va, b);
    match key_of_exec(t, ka, kb) {
        Some(k) => apply_key_exec(st, k, t, va, vb),
        None => st,
    }
}

/// Reads a state file; see `spec_parse_state`.
pub fn parse_state(text: &[u8]) -> (r: (Settings, Stats))
    ensures
        r == spec_parse_state(text@),
        r.0.in_bounds(),
{
    let mut st = (Settings::default(), Stats::default());
    let ghost init = st;
    let mut p: usize = 0;
    while p < text.len()
        invariant
            p <= text.len(),
            apply_from(st, text@, p as int) == apply_from(init, text@, 0),
        decreases text.len() - p,
    {
        let q = find_byte_exec(text, p, text.len(), 0x0a);
        let ghost before = st;
        st = apply_line_exec(st, text, p, q);
        assert(apply_from(before, text@, p as int) == apply_from(st, text@, q + 1));
        if q >= text.len() {
            assert(apply_from(st, text@, q + 1) == st);
            assert(apply_from(st, text@, text.len() as int) == st);
        }
        if q >= text.len() {
            p = text.len();
        } else {
            p = q + 1;
        }
    }
    let (s, x) = st;
    let s = Settings {
        work_mins: clamp_u32(s.work_mins, 1, 180),
        short_mins: clamp_u32(s.short_mins, 1, 60),
        long_mins: clamp_u32(s.long_mins, 1, 120),
        long_interval: clamp_u32(s.long_interval, 2, 12),
        ..s
    };
    (s, x)
}


// ---------------------------------------------------------------------------
// Loading.

/// What loading yields on `today`: with no file, the defaults and empty
/// statistics dated `today`; with one, what it holds, the daily counters
/// rolled over to `today`.
pub open spec fn spec_load_state(contents: Option<Seq<u8>>, today: u64) -> (Settings, Stats) {
    match contents {
        None => (Settings::spec_default(), Stats::zero_on(today)),
        Some(t) => {
            let (s, x) = spec_parse_state(t);
            (s, x.rolled(today))
        },
    }
}

pub open spec fn opt_view(contents: Option<&[u8]>) -> Option<Seq<u8>> {
    match contents {
        Some(t) => Some(t@),
        None => None,
    }
}

/// Loads the state from the contents of the state file, if it could be read,
/// on `today`.
pub fn load_state_on(contents: Option<&[u8]>, today: u64) -> (r: (Settings, Stats))
    ensures
        r == spec_load_state(opt_view(contents), today),
        r.0.in_bounds() || contents.is_none(),
        r.1.day == today,
{
    match contents {
        None => {
            let mut stats = Stats::default();
            stats.day = today;
            (Settings::default(), stats)
        },
        Some(t) => {
            let (settings, mut stats) = parse_state(t);
            stats.roll_over_to(today);
            (settings, stats)
        },
    }
}

/// `load_state_on` the day the system clock gives; that day is the one the
/// returned statistics carry.
pub fn load_state(contents: Option<&[u8]>) -> (r: (Settings, Stats))
    ensures
        r == spec_load_state(opt_view(contents), r.1.day),
        crate::config::is_clock_day(r.1.day),
{
    let today = crate::config::current_day();
    load_state_on(contents, today)
}

// ---------------------------------------------------------------------------
// Writing.

/// The decimal digits of `n`, without leading zeros.
pub open spec fn decimal(n: nat) -> Seq<u8>
    decreases n,
{
    if n < 10 {
        seq![(48 + n) as u8]
    } else {
        decimal(n / 10).push((48 + n % 10) as u8)
    }
}

pub open spec fn bool_word(b: bool) -> Seq<u8> {
    if b {
        word_true()
    } else {
        word_false()
    }
}

/// The first line of a written state file.
pub open spec fn header() -> Seq<u8> {
    seq![35u8, 32u8, 112u8, 111u8, 109u8, 111u8, 32u8, 115u8, 116u8, 97u8, 116u8, 101u8, 32u8, 226u8, 128u8, 148u8, 32u8, 101u8, 100u8, 105u8, 116u8, 101u8, 100u8, 32u8, 97u8, 117u8, 116u8, 111u8, 109u8, 97u8, 116u8, 105u8, 99u8, 97u8, 108u8, 108u8, 121u8, 10u8]
}

/// The line `key=value`.
pub open spec fn entry(k: Key, v: Seq<u8>) -> Seq<u8> {
    key_word(k) + seq![61u8] + v + seq![10u8]
}

/// The keys and values written, in the order they are written.
pub open spec fn entries(s: Settings, x: Stats) -> Seq<(Key, Seq<u8>)> {
    seq![
        (Key::WorkMins, decimal(s.work_mins as nat)),
        (Key::ShortMins, decimal(s.short_mins as nat)),
        (Key::LongMins, decimal(s.long_mins as nat)),
        (Key::LongInterval, decimal(s.long_interval as nat)),
        (Key::AutoStartBreaks, bool_word(s.auto_start_breaks)),
        (Key::AutoStartFocus, bool_word(s.auto_start_focus)),
        (Key::Notifications, bool_word(s.notifications)),
        (Key::Sound, bool_word(s.sound)),
        (Key::Day, decimal(x.day as nat)),
        (Key::TodaySessions, decimal(x.today_sessions as nat)),
        (Key::TodayFocusSecs, decimal(x.today_focus_secs as nat)),
        (Key::TotalSessions, decimal(x.total_sessions as nat)),
        (Key::TotalFocusSecs, decimal(x.total_focus_secs as nat)),
    ]
}

/// The lines of the first `n` entries of `es`.
pub open spec fn text_upto(es: Seq<(Key, Seq<u8>)>, n: int) -> Seq<u8>
    decreases n,
{
    if n <= 0 {
        Seq::empty()
    } else {
        text_upto(es, n - 1) + entry(es[n - 1].0, es[n - 1].1)
    }
}

/// The state file that holds `s` and `x`.
pub open spec fn spec_render_state(s: Settings, x: Stats) -> Seq<u8> {
    header() + text_upto(entries(s, x), 13)
}

fn push_decimal(out: &mut Vec<u8>, n: u64)
    ensures
        final(out)@ == old(out)@ + decimal(n as nat),
    decreases n,
{
    if n >= 10 {
        push_decimal(out, n / 10);
    }
    out.push((48 + n % 10) as u8);
    assert(final(out)@ =~= old(out)@ + decimal(n as nat));
}

fn push_all(out: &mut Vec<u8>, v: &Vec<u8>)
    ensures
        final(out)@ == old(out)@ + v@,
{
    let mut i: usize = 0;
    while i < v.len()
        invariant
            i <= v.len(),
            out@ == old(out)@ + v@.subrange(0, i as int),
        decreases v.len() - i,
    {
        out.push(v[i]);
        assert(v@.subrange(0, i + 1) =~= v@.subrange(0, i as int).push(v@[i as int]));
        i = i + 1;
    }
    assert(v@.subrange(0, v.len() as int) =~= v@);
}

fn bool_word_exec(b: bool) -> (w: Vec<u8>)
    ensures
        w@ == bool_word(b),
{
    let w = if b {
        vec![116u8, 114u8, 117u8, 101u8]
    } else {
        vec![102u8, 97u8, 108u8, 115u8, 101u8]
    };
    assert(w@ =~= bool_word(b));
    w
}

fn entry_at(s: &Settings, x: &Stats, i: usize) -> (r: (Key, Vec<u8>))
    requires
        i < 13,
    ensures
        r.0 == entries(*s, *x)[i as int].0,
        r.1@ == entries(*s, *x)[i as int].1,
{
    let mut v: Vec<u8> = Vec::new();
    let k = if i == 0 {
        push_decimal(&mut v, s.work_mins as u64);
        Key::WorkMins
    } else if i == 1 {
        push_decimal(&mut v, s.short_mins as u64);
        Key::ShortMins
    } else if i == 2 {
        push_decimal(&mut v, s.long_mins as u64);
        Key::LongMins
    } else if i == 3 {
        push_decimal(&mut v, s.long_interval as u64);
        Key::LongInterval
    } else if i == 4 {
        v = bool_word_exec(s.auto_start_breaks);
        Key::AutoStartBreaks
    } else if i == 5 {
        v = bool_word_exec(s.auto_start_focus);
        Key::AutoStartFocus
    } else if i == 6 {
        v = bool_word_exec(s.notifications);
        Key::Notifications
    } else if i == 7 {
        v = bool_word_exec(s.sound);
        Key::Sound
    } else if i == 8 {
        push_decimal(&mut v, x.day);
        Key::Day
    } else if i == 9 {
        push_decimal(&mut v, x.today_sessions as u64);
        Key::TodaySessions
    } else if i == 10 {
        push_decimal(&mut v, x.today_focus_secs);
        Key::TodayFocusSecs
    } else if i == 11 {
        push_decimal(&mut v, x.total_sessions as u64);
        Key::TotalSessions
    } else {
        push_decimal(&mut v, x.total_focus_secs);
        Key::TotalFocusSecs
    };
    assert(v@ =~= entries(*s, *x)[i as int].1);
    (k, v)
}

/// Writes the state file that holds `settings` and `stats`; reading it back
/// with `parse_state` gives them again (see `lemma_state_file_round_trip`).
pub fn render_state(settings: &Settings, stats: &Stats) -> (out: Vec<u8>)
    ensures
        out@ == spec_render_state(*settings, *stats),
{
    let mut out: Vec<u8> = vec![35u8, 32u8, 112u8, 111u8, 109u8, 111u8, 32u8, 115u8, 116u8, 97u8, 116u8, 101u8, 32u8, 226u8, 128u8, 148u8, 32u8, 101u8, 100u8, 105u8, 116u8, 101u8, 100u8, 32u8, 97u8, 117u8, 116u8, 111u8, 109u8, 97u8, 116u8, 105u8, 99u8, 97u8, 108u8, 108u8, 121u8, 10u8];
    assert(out@ =~= header() + text_upto(entries(*settings, *stats), 0));
    let mut i: usize = 0;
    while i < 13
        invariant
            i <= 13,
            out@ == header() + text_upto(entries(*settings, *stats), i as int),
        decreases 13 - i,
    {
        let (k, v) = entry_at(settings, stats, i);
        let ghost before = out@;
        let kw = key_word_exec(k);
        push_all(&mut out, &kw);
        out.push(61u8);
        push_all(&mut out, &v);
        out.push(10u8);
        assert(out@ =~= before + entry(k, v@));
        assert(text_upto(entries(*settings, *stats), i + 1) == text_upto(
            entries(*settings, *stats),
            i as int,
        ) + entry(k, v@));
        assert(out@ =~= header() + text_upto(entries(*settings, *stats), i + 1));
        i = i + 1;
    }
    out
}


// ---------------------------------------------------------------------------
// Reading back what was written.

/// A byte that can stand in a key or a value as written: a visible ASCII
/// character other than `=`.
pub open spec fn is_word_byte(b: u8) -> bool {
    0x21 <= b && b <= 0x7e && b != 0x3d
}

pub open spec fn is_word(s: Seq<u8>) -> bool {
    s.len() > 0 && forall|i: int| 0 <= i < s.len() ==> is_word_byte(#[trigger] s[i])
}

proof fn lemma_find_byte_first(t: Seq<u8>, i: int, q: int, hi: int, c: u8)
    requires
        i <= q < hi,
        t[q] == c,
        forall|k: int| i <= k < q ==> t[k] != c,
    ensures
        find_byte(t, i, hi, c) == q,
    decreases q - i,
{
    if i < q {
        lemma_find_byte_first(t, i + 1, q, hi, c);
    }
}

/// Reading the line `key=value` at `p` applies that key and value.
proof fn lemma_entry(st: (Settings, Stats), t: Seq<u8>, p: int, k: Key, v: Seq<u8>)
    requires
        0 <= p,
        p + entry(k, v).len() <= t.len(),
        forall|j: int| 0 <= j < entry(k, v).len() ==> t[p + j] == #[trigger] entry(k, v)[j],
        is_word(key_word(k)),
        key_word(k)[0] != 0x23,
        key_of(key_word(k)) == Some(k),
        is_word(v),
    ensures
        apply_from(st, t, p) == apply_from(apply_key(st, k, v), t, p + entry(k, v).len()),
{
    let w = key_word(k);
    let e = entry(k, v);
    let kl = w.len() as int;
    let eq = p + kl;
    let q = eq + 1 + v.len();
    assert(e.len() == kl + 1 + v.len() + 1);
    assert forall|j: int| 0 <= j < kl implies t[p + j] == w[j] by {
        assert(e[j] == w[j]);
    }
    assert(t[eq] == 61u8) by {
        assert(e[kl] == 61u8);
    }
    assert forall|j: int| 0 <= j < v.len() implies t[eq + 1 + j] == v[j] by {
        assert(e[kl + 1 + j] == v[j]);
    }
    assert(t[q] == 10u8) by {
        assert(e[kl + 1 + v.len()] == 10u8);
    }
    assert forall|j: int| p <= j < q implies t[j] != 10u8 by {
        if j < eq {
            assert(t[j] == w[j - p]);
            assert(is_word_byte(w[j - p]));
        } else if j > eq {
            assert(t[j] == v[j - eq - 1]);
            assert(is_word_byte(v[j - eq - 1]));
        }
    }
    lemma_find_byte_first(t, p, q, t.len() as int, 10u8);
    assert(apply_from(st, t, p) == apply_from(apply_line(st, t, p, q), t, q + 1));
    assert(is_word_byte(w[0]));
    assert(ws_len_at(t, p, q) == 0);
    assert(skip_ws(t, p, q) == p);
    assert(is_word_byte(v[v.len() - 1]));
    assert(t[q - 1] == v[v.len() - 1]);
    assert(ws_len_before(t, p, q) == 0);
    assert(back_ws(t, p, q) == q);
    assert forall|j: int| p <= j < eq implies t[j] != 61u8 by {
        assert(t[j] == w[j - p]);
        assert(is_word_byte(w[j - p]));
    }
    lemma_find_byte_first(t, p, eq, q, 61u8);
    assert(ws_len_at(t, p, eq) == 0);
    assert(skip_ws(t, p, eq) == p);
    assert(is_word_byte(w[kl - 1]));
    assert(t[eq - 1] == w[kl - 1]);
    assert(ws_len_before(t, p, eq) == 0);
    assert(back_ws(t, p, eq) == eq);
    assert(is_word_byte(v[0]));
    assert(t[eq + 1] == v[0]);
    assert(ws_len_at(t, eq + 1, q) == 0);
    assert(skip_ws(t, eq + 1, q) == eq + 1);
    assert(ws_len_before(t, eq + 1, q) == 0);
    assert(back_ws(t, eq + 1, q) == q);
    assert(t.subrange(p, eq) =~= w);
    assert(t.subrange(eq + 1, q) =~= v);
}


/// The keys and values of the first `n` entries of `es`, applied in order.
pub open spec fn apply_upto(st: (Settings, Stats), es: Seq<(Key, Seq<u8>)>, n: int) -> (
    Settings,
    Stats,
)
    decreases n,
{
    if n <= 0 {
        st
    } else {
        apply_key(apply_upto(st, es, n - 1), es[n - 1].0, es[n - 1].1)
    }
}

/// An entry that reads back as written.
pub open spec fn entry_reads_back(k: Key, v: Seq<u8>) -> bool {
    &&& is_word(key_word(k))
    &&& key_word(k)[0] != 0x23
    &&& key_of(key_word(k)) == Some(k)
    &&& is_word(v)
}

proof fn lemma_text_upto_prefix(es: Seq<(Key, Seq<u8>)>, i: int, n: int)
    requires
        0 <= i <= n,
    ensures
        text_upto(es, i).len() <= text_upto(es, n).len(),
        forall|j: int|
            0 <= j < text_upto(es, i).len() ==> #[trigger] text_upto(es, n)[j] == text_upto(
                es,
                i,
            )[j],
    decreases n - i,
{
    if i < n {
        lemma_text_upto_prefix(es, i, n - 1);
    }
}

proof fn lemma_entries(
    st: (Settings, Stats),
    pre: Seq<u8>,
    es: Seq<(Key, Seq<u8>)>,
    i: int,
    n: int,
)
    requires
        0 <= i <= n <= es.len(),
        forall|j: int| 0 <= j < n ==> entry_reads_back(#[trigger] es[j].0, es[j].1),
    ensures
        apply_from(st, pre + text_upto(es, n), pre.len() as int) == apply_from(
            apply_upto(st, es, i),
            pre + text_upto(es, n),
            (pre.len() + text_upto(es, i).len()) as int,
        ),
    decreases i,
{
    if i > 0 {
        lemma_entries(st, pre, es, i - 1, n);
        let t = pre + text_upto(es, n);
        let p = (pre.len() + text_upto(es, i - 1).len()) as int;
        let k = es[i - 1].0;
        let v = es[i - 1].1;
        let e = entry(k, v);
        assert(entry_reads_back(es[i - 1].0, es[i - 1].1));
        lemma_text_upto_prefix(es, i, n);
        assert(text_upto(es, i) == text_upto(es, i - 1) + e);
        assert forall|j: int| 0 <= j < e.len() implies t[p + j] == #[trigger] e[j] by {
            let m = text_upto(es, i - 1).len() + j;
            assert(text_upto(es, i)[m] == e[j]);
            assert(text_upto(es, n)[m] == text_upto(es, i)[m]);
        }
        lemma_entry(apply_upto(st, es, i - 1), t, p, k, v);
    }
}

/// Reading the header changes nothing.
proof fn lemma_header(st: (Settings, Stats), rest: Seq<u8>)
    ensures
        apply_from(st, header() + rest, 0) == apply_from(st, header() + rest, header().len() as int),
{
    let t = header() + rest;
    let q = header().len() - 1;
    assert(q == 37);
    assert(forall|j: int| 0 <= j < header().len() ==> t[j] == #[trigger] header()[j]);
    assert(forall|j: int| 0 <= j < 37 ==> header()[j] != 10u8);
    assert forall|j: int| 0 <= j < q implies t[j] != 10u8 by {
        assert(t[j] == header()[j]);
    }
    lemma_find_byte_first(t, 0, q, t.len() as int, 10u8);
    assert(ws_len_at(t, 0, q) == 0);
    assert(skip_ws(t, 0, q) == 0);
    assert(ws_len_before(t, 0, q) == 0);
    assert(back_ws(t, 0, q) == q);
}

proof fn lemma_decimal(n: nat)
    ensures
        is_word(decimal(n)),
        all_digits(decimal(n)),
        digits_value(decimal(n)) == n,
    decreases n,
{
    if n >= 10 {
        lemma_decimal(n / 10);
        let d = decimal(n);
        assert(d.drop_last() =~= decimal(n / 10));
        assert(d.last() == (48 + n % 10) as u8);
        assert((d.last() - 0x30) as nat == n % 10);
        assert((n / 10) * 10 + n % 10 == n);
        assert(d.len() > 0);
        assert(digits_value(d) == digits_value(d.drop_last()) * 10 + (d.last() - 0x30) as nat);
        assert(digits_value(d.drop_last()) == n / 10);
        assert forall|i: int| 0 <= i < d.len() implies is_digit(#[trigger] d[i]) by {
            if i < d.len() - 1 {
                assert(d[i] == decimal(n / 10)[i]);
            }
        }
    } else {
        let d = decimal(n);
        assert(d.drop_last() =~= Seq::<u8>::empty());
        assert(d.len() == 1);
        assert(d.last() == (48 + n) as u8);
        assert(digits_value(d) == digits_value(d.drop_last()) * 10 + (d.last() - 0x30) as nat);
    }
}

proof fn lemma_parse_decimal(n: u64)
    ensures
        parse_u64(decimal(n as nat)) == Some(n),
{
    lemma_decimal(n as nat);
    assert(is_digit(decimal(n as nat)[0]));
}

proof fn lemma_key_words(k: Key)
    ensures
        entry_reads_back(k, seq![48u8]),
{
    assert(is_word_byte(48u8));
    assert(is_word(seq![48u8]));
    match k {
        Key::WorkMins => {},
        Key::ShortMins => {},
        Key::LongMins => {},
        Key::LongInterval => {},
        Key::AutoStartBreaks => {},
        Key::AutoStartFocus => {},
        Key::Notifications => {},
        Key::Sound => {},
        Key::Day => {},
        Key::TodaySessions => {},
        Key::TodayFocusSecs => {},
        Key::TotalSessions => {},
        Key::TotalFocusSecs => {},
    }
}


proof fn lemma_bool_word(b: bool)
    ensures
        is_word(bool_word(b)),
        parse_flag(bool_word(b)) == Some(b),
{
    let w = bool_word(b);
    if b {
        assert(w.len() == 4);
        assert(w[0] == 116u8 && w[1] == 114u8 && w[2] == 117u8 && w[3] == 101u8);
    } else {
        assert(w.len() == 5);
        assert(w[0] == 102u8 && w[1] == 97u8 && w[2] == 108u8 && w[3] == 115u8 && w[4] == 101u8);
        assert(w != word_true());
        assert(w != seq![49u8]);
        assert(w != seq![121u8, 101u8, 115u8]);
    }
    assert forall|i: int| 0 <= i < w.len() implies is_word_byte(#[trigger] w[i]) by {}
}

proof fn lemma_entries_read_back(s: Settings, x: Stats, j: int)
    requires
        0 <= j < 13,
    ensures
        entry_reads_back(entries(s, x)[j].0, entries(s, x)[j].1),
{
    let es = entries(s, x);
    lemma_decimal(s.work_mins as nat);
    lemma_decimal(s.short_mins as nat);
    lemma_decimal(s.long_mins as nat);
    lemma_decimal(s.long_interval as nat);
    lemma_decimal(x.day as nat);
    lemma_decimal(x.today_sessions as nat);
    lemma_decimal(x.today_focus_secs as nat);
    lemma_decimal(x.total_sessions as nat);
    lemma_decimal(x.total_focus_secs as nat);
    lemma_bool_word(s.auto_start_breaks);
    lemma_bool_word(s.auto_start_focus);
    lemma_bool_word(s.notifications);
    lemma_bool_word(s.sound);
    if j == 0 {
        lemma_key_words(es[0].0);
    } else if j == 1 {
        lemma_key_words(es[1].0);
    } else if j == 2 {
        lemma_key_words(es[2].0);
    } else if j == 3 {
        lemma_key_words(es[3].0);
    } else if j == 4 {
        lemma_key_words(es[4].0);
    } else if j == 5 {
        lemma_key_words(es[5].0);
    } else if j == 6 {
        lemma_key_words(es[6].0);
    } else if j == 7 {
        lemma_key_words(es[7].0);
    } else if j == 8 {
        lemma_key_words(es[8].0);
    } else if j == 9 {
        lemma_key_words(es[9].0);
    } else if j == 10 {
        lemma_key_words(es[10].0);
    } else if j == 11 {
        lemma_key_words(es[11].0);
    } else if j == 12 {
        lemma_key_words(es[12].0);
    }
}

#[verifier::rlimit(50)]
proof fn lemma_apply_entries(s: Settings, x: Stats, st0: (Settings, Stats))
    ensures
        apply_upto(st0, entries(s, x), 13) == (s, x),
{
    let es = entries(s, x);
    lemma_parse_decimal(s.work_mins as u64);
    lemma_parse_decimal(s.short_mins as u64);
    lemma_parse_decimal(s.long_mins as u64);
    lemma_parse_decimal(s.long_interval as u64);
    lemma_parse_decimal(x.day);
    lemma_parse_decimal(x.today_sessions as u64);
    lemma_parse_decimal(x.today_focus_secs);
    lemma_parse_decimal(x.total_sessions as u64);
    lemma_parse_decimal(x.total_focus_secs);
    lemma_bool_word(s.auto_start_breaks);
    lemma_bool_word(s.auto_start_focus);
    lemma_bool_word(s.notifications);
    lemma_bool_word(s.sound);
    let a0 = st0;
    assert(apply_upto(st0, es, 0) == st0);
    assert(es[0] == (Key::WorkMins, decimal(s.work_mins as nat)));
    assert(((s.work_mins as u64) as u32) == s.work_mins);
    let a1 = apply_upto(st0, es, 1);
    assert(a1 == apply_key(st0, Key::WorkMins, decimal(s.work_mins as nat)));
    assert(a1 == (Settings { work_mins: s.work_mins, ..a0.0 }, a0.1));
    let a2 = apply_upto(st0, es, 2);
    assert(a2 == (Settings { short_mins: s.short_mins, ..a1.0 }, a1.1));
    let a3 = apply_upto(st0, es, 3);
    assert(a3 == (Settings { long_mins: s.long_mins, ..a2.0 }, a2.1));
    let a4 = apply_upto(st0, es, 4);
    assert(a4 == (Settings { long_interval: s.long_interval, ..a3.0 }, a3.1));
    let a5 = apply_upto(st0, es, 5);
    assert(a5 == (Settings { auto_start_breaks: s.auto_start_breaks, ..a4.0 }, a4.1));
    let a6 = apply_upto(st0, es, 6);
    assert(a6 == (Settings { auto_start_focus: s.auto_start_focus, ..a5.0 }, a5.1));
    let a7 = apply_upto(st0, es, 7);
    assert(a7 == (Settings { notifications: s.notifications, ..a6.0 }, a6.1));
    let a8 = apply_upto(st0, es, 8);
    assert(a8 == (Settings { sound: s.sound, ..a7.0 }, a7.1));
    assert(a8.0 == s);
    let a9 = apply_upto(st0, es, 9);
    assert(a9 == (s, Stats { day: x.day, ..a8.1 }));
    let a10 = apply_upto(st0, es, 10);
    assert(a10 == (s, Stats { today_sessions: x.today_sessions, ..a9.1 }));
    let a11 = apply_upto(st0, es, 11);
    assert(a11 == (s, Stats { today_focus_secs: x.today_focus_secs, ..a10.1 }));
    let a12 = apply_upto(st0, es, 12);
    assert(a12 == (s, Stats { total_sessions: x.total_sessions, ..a11.1 }));
    let a13 = apply_upto(st0, es, 13);
    assert(a13 == (s, Stats { total_focus_secs: x.total_focus_secs, ..a12.1 }));
}

/// Writing the state and reading it back gives that state again, when the
/// lengths are within their bounds (reading brings them into bounds). Loaded
/// on the day the statistics carry, nothing is rolled over either; loaded on
/// another day, only the daily counters start again.
pub proof fn lemma_state_file_round_trip(s: Settings, x: Stats, today: u64)
    requires
        s.in_bounds(),
    ensures
        spec_parse_state(spec_render_state(s, x)) == (s, x),
        spec_load_state(Some(spec_render_state(s, x)), x.day) == (s, x),
        spec_load_state(Some(spec_render_state(s, x)), today) == (s, x.rolled(today)),
{
    let es = entries(s, x);
    let t = spec_render_state(s, x);
    let st0 = (Settings::spec_default(), Stats::zero_on(0));
    lemma_header(st0, text_upto(es, 13));
    assert forall|j: int| 0 <= j < 13 implies entry_reads_back(#[trigger] es[j].0, es[j].1) by {
        lemma_entries_read_back(s, x, j);
    }
    lemma_entries(st0, header(), es, 13, 13);
    assert(t.len() == header().len() + text_upto(es, 13).len());
    let st = apply_upto(st0, es, 13);
    assert(apply_from(st, t, t.len() as int) == st);
    lemma_apply_entries(s, x, st0);
}


// ---------------------------------------------------------------------------
// The last readable value of a length wins.

/// The key and value that the line `t[p..q]` holds, if it holds a known key;
/// see `apply_line`.
pub open spec fn line_entry(t: Seq<u8>, p: int, q: int) -> Option<(Key, Seq<u8>)> {
    let a = skip_ws(t, p, q);
    let b = back_ws(t, a, q);
    if a >= b || t[a] == 0x23 {
        None
    } else {
        let e = find_byte(t, a, b, 0x3d);
        if e >= b {
            None
        } else {
            let ka = skip_ws(t, a, e);
            let kb = back_ws(t, ka, e);
            let va = skip_ws(t, e + 1, b);
            let vb = back_ws(t, va, b);
            match key_of(t.subrange(ka, kb)) {
                Some(k) => Some((k, t.subrange(va, vb))),
                None => None,
            }
        }
    }
}

/// The keys of the four lengths.
pub open spec fn is_length_key(k: Key) -> bool {
    k is WorkMins || k is ShortMins || k is LongMins || k is LongInterval
}

/// The length that `k` names in `s`.
pub open spec fn length_of(s: Settings, k: Key) -> u32 {
    match k {
        Key::WorkMins => s.work_mins,
        Key::ShortMins => s.short_mins,
        Key::LongMins => s.long_mins,
        _ => s.long_interval,
    }
}

/// The number that the last line of `t` from byte `p` on with key `k` and a
/// value that reads as a number gives; `None` when no such line follows.
pub open spec fn last_number(t: Seq<u8>, p: int, k: Key) -> Option<u64>
    decreases t.len() + 1 - p,
{
    if p < 0 || p >= t.len() {
        None
    } else {
        let q = find_byte(t, p, t.len() as int, 0x0a);
        proof {
            lemma_find_byte_bounds(t, p, t.len() as int, 0x0a);
        }
        match last_number(t, q + 1, k) {
            Some(n) => Some(n),
            None => match line_entry(t, p, q) {
                Some((k2, v)) => if k2 == k {
                    parse_u64(v)
                } else {
                    None
                },
                None => None,
            },
        }
    }
}

proof fn lemma_line_length(st: (Settings, Stats), t: Seq<u8>, p: int, q: int, k: Key)
    requires
        is_length_key(k),
    ensures
        length_of(apply_line(st, t, p, q).0, k) == (match line_entry(t, p, q) {
            Some((k2, v)) => if k2 == k && parse_u64(v) is Some {
                parse_u64(v).unwrap() as u32
            } else {
                length_of(st.0, k)
            },
            None => length_of(st.0, k),
        }),
{
}

proof fn lemma_last_number(st: (Settings, Stats), t: Seq<u8>, p: int, k: Key)
    requires
        is_length_key(k),
    ensures
        length_of(apply_from(st, t, p).0, k) == (match last_number(t, p, k) {
            Some(n) => n as u32,
            None => length_of(st.0, k),
        }),
    decreases t.len() + 1 - p,
{
    if p >= 0 && p < t.len() {
        let q = find_byte(t, p, t.len() as int, 0x0a);
        lemma_find_byte_bounds(t, p, t.len() as int, 0x0a);
        let st1 = apply_line(st, t, p, q);
        lemma_line_length(st, t, p, q, k);
        lemma_last_number(st1, t, q + 1, k);
    }
}

/// Each length is the last value in the file that reads as a number, cut to
/// 32 bits as `as u32` does and brought into its bounds; with no such value
/// it is the default, which lies within them.
pub proof fn lemma_last_length_wins(t: Seq<u8>)
    ensures
        spec_parse_state(t).0.work_mins == clamp_spec(
            match last_number(t, 0, Key::WorkMins) {
                Some(n) => (n as u32) as int,
                None => 25,
            },
            1,
            180,
        ),
        spec_parse_state(t).0.short_mins == clamp_spec(
            match last_number(t, 0, Key::ShortMins) {
                Some(n) => (n as u32) as int,
                None => 5,
            },
            1,
            60,
        ),
        spec_parse_state(t).0.long_mins == clamp_spec(
            match last_number(t, 0, Key::LongMins) {
                Some(n) => (n as u32) as int,
                None => 15,
            },
            1,
            120,
        ),
        spec_parse_state(t).0.long_interval == clamp_spec(
            match last_number(t, 0, Key::LongInterval) {
                Some(n) => (n as u32) as int,
                None => 4,
            },
            2,
            12,
        ),
{
    let st0 = (Settings::spec_default(), Stats::zero_on(0));
    lemma_last_number(st0, t, 0, Key::WorkMins);
    lemma_last_number(st0, t, 0, Key::ShortMins);
    lemma_last_number(st0, t, 0, Key::LongMins);
    lemma_last_number(st0, t, 0, Key::LongInterval);
}

} // verus!
