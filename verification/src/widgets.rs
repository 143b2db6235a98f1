use vstd::prelude::*;
use vstd::utf8::*;

use crate::text::{chars_of, string_from_chars};

verus! {

// ──────────────────────────────────────────────
// UTF-8 widths
// ──────────────────────────────────────────────

/// Number of bytes in the UTF-8 encoding of `c`.
pub open spec fn utf8_width(c: char) -> nat {
    if (c as u32) <= 0x7F {
        1
    } else if (c as u32) <= 0x7FF {
        2
    } else if (c as u32) <= 0xFFFF {
        3
    } else {
        4
    }
}

/// Number of bytes in the UTF-8 encoding of `s`.
pub open spec fn byte_len(s: Seq<char>) -> nat
    decreases s.len(),
{
    if s.len() == 0 {
        0
    } else {
        byte_len(s.drop_last()) + utf8_width(s.last())
    }
}

pub proof fn lemma_byte_len_concat(a: Seq<char>, b: Seq<char>)
    ensures
        byte_len(a + b) == byte_len(a) + byte_len(b),
    decreases b.len(),
{
    if b.len() == 0 {
        assert(a + b =~= a);
    } else {
        assert((a + b).drop_last() =~= a + b.drop_last());
        lemma_byte_len_concat(a, b.drop_last());
    }
}

proof fn lemma_byte_len_first(s: Seq<char>)
    requires
        s.len() > 0,
    ensures
        byte_len(s) == utf8_width(s[0]) + byte_len(s.drop_first()),
{
    assert(s =~= seq![s[0]] + s.drop_first());
    lemma_byte_len_concat(seq![s[0]], s.drop_first());
    assert(seq![s[0]].drop_last() =~= Seq::<char>::empty());
    assert(byte_len(Seq::<char>::empty()) == 0);
    assert(byte_len(seq![s[0]]) == utf8_width(s[0]));
}

/// Splitting a string splits its byte length.
pub proof fn lemma_byte_len_split(s: Seq<char>, k: int)
    requires
        0 <= k <= s.len(),
    ensures
        byte_len(s) == byte_len(s.take(k)) + byte_len(s.skip(k)),
{
    assert(s =~= s.take(k) + s.skip(k));
    lemma_byte_len_concat(s.take(k), s.skip(k));
}

/// The byte length of a string is the sum of its characters' widths.
pub proof fn lemma_encode_len(s: Seq<char>)
    ensures
        encode_utf8(s).len() == byte_len(s),
    decreases s.len(),
{
    if s.len() > 0 {
        lemma_encode_len(s.drop_first());
        lemma_byte_len_first(s);
        char_is_scalar(s[0]);
    }
}

/// A character takes at most four bytes.
pub proof fn lemma_byte_len_bound(s: Seq<char>)
    ensures
        byte_len(s) <= 4 * s.len(),
    decreases s.len(),
{
    if s.len() > 0 {
        lemma_byte_len_bound(s.drop_last());
    }
}

/// Prefix byte lengths grow strictly with the number of characters.
pub proof fn lemma_prefix_strict(s: Seq<char>, i: int, j: int)
    requires
        0 <= i < j <= s.len(),
    ensures
        byte_len(s.take(i)) < byte_len(s.take(j)),
    decreases j - i,
{
    assert(s.take(j).drop_last() =~= s.take(j - 1));
    if i < j - 1 {
        lemma_prefix_strict(s, i, j - 1);
    }
}

/// A byte offset falls on the boundary after `k` characters for at most one `k`.
pub proof fn lemma_prefix_unique(s: Seq<char>, i: int, j: int)
    requires
        0 <= i <= s.len(),
        0 <= j <= s.len(),
        byte_len(s.take(i)) == byte_len(s.take(j)),
    ensures
        i == j,
{
    if i < j {
        lemma_prefix_strict(s, i, j);
    } else if j < i {
        lemma_prefix_strict(s, j, i);
    }
}

pub(crate) fn byte_len_exec(s: &[char]) -> (r: u128)
    ensures
        r == byte_len(s@),
{
    let mut total: u128 = 0;
    let mut i: usize = 0;
    while i < s.len()
        invariant
            i <= s.len(),
            total == byte_len(s@.take(i as int)),
            total <= 4 * i,
        decreases s.len() - i,
    {
        let w = utf8_width_exec(s[i]);
        assert(s@.take(i + 1).drop_last() =~= s@.take(i as int));
        total = total + w as u128;
        i += 1;
    }
    assert(s@.take(s.len() as int) =~= s@);
    total
}

fn utf8_width_exec(c: char) -> (r: usize)
    ensures
        r == utf8_width(c),
{
    let u = c as u32;
    if u <= 0x7F {
        1
    } else if u <= 0x7FF {
        2
    } else if u <= 0xFFFF {
        3
    } else {
        4
    }
}

/// Byte offset of each character boundary: returns the number of characters
/// before byte offset `cursor`, if `cursor` is a boundary.
pub(crate) fn chars_before(s: &[char], cursor: usize) -> (r: Option<usize>)
    ensures
        match r {
            Some(k) => k <= s@.len() && byte_len(s@.take(k as int)) == cursor,
            None => forall|k: int| 0 <= k <= s@.len() ==> byte_len(#[trigger] s@.take(k)) != cursor,
        },
{
    let mut k: usize = 0;
    let mut off: usize = 0;
    loop
        invariant
            k <= s.len(),
            off == byte_len(s@.take(k as int)),
            off <= cursor,
        decreases s.len() - k,
    {
        if off == cursor {
            return Some(k);
        }
        if k == s.len() {
            proof {
                assert forall|j: int| 0 <= j <= s@.len() implies byte_len(#[trigger] s@.take(j)) != cursor by {
                    if j < k {
                        lemma_prefix_strict(s@, j, k as int);
                    }
                }
            }
            return None;
        }
        let w = utf8_width_exec(s[k]);
        proof {
            assert(s@.take(k + 1).drop_last() =~= s@.take(k as int));
        }
        if w > cursor - off {
            proof {
                assert forall|j: int| 0 <= j <= s@.len() implies byte_len(#[trigger] s@.take(j)) != cursor by {
                    if j <= k {
                        if j < k {
                            lemma_prefix_strict(s@, j, k as int);
                        }
                    } else {
                        if j > k + 1 {
                            lemma_prefix_strict(s@, k + 1, j);
                        }
                    }
                }
            }
            return None;
        }
        off = off + w;
        k = k + 1;
    }
}

/// `s` can be cut after `n` bytes: it is no longer, or a character boundary
/// falls there (slicing a `str` there does not panic).
pub open spec fn cut_ok(s: Seq<char>, n: nat) -> bool {
    byte_len(s) > n ==> exists|k: int| 0 <= k <= s.len() && #[trigger] byte_len(s.take(k)) == n
}

/// The first `n` bytes of `s` where it is longer, else all of it.
pub open spec fn byte_prefix(s: Seq<char>, n: nat) -> Seq<char> {
    if byte_len(s) > n {
        s.take(choose|k: int| 0 <= k <= s.len() && #[trigger] byte_len(s.take(k)) == n)
    } else {
        s
    }
}

/// The characters of the first `n` bytes of `s` (all of them where it is not longer).
pub fn truncate_bytes(s: &str, n: usize) -> (r: Vec<char>)
    requires
        cut_ok(s@, n as nat),
    ensures
        r@ == byte_prefix(s@, n as nat),
{
    let cs = chars_of(s);
    if byte_len_exec(cs.as_slice()) > n as u128 {
        match chars_before(cs.as_slice(), n) {
            Some(k) => {
                let ghost c = choose|k: int| 0 <= k <= s@.len() && #[trigger] byte_len(s@.take(k)) == n;
                proof {
                    lemma_prefix_unique(s@, k as int, c);
                }
                let mut out: Vec<char> = Vec::new();
                let mut i: usize = 0;
                while i < k
                    invariant
                        i <= k <= cs@.len(),
                        out@ == cs@.take(i as int),
                    decreases k - i,
                {
                    out.push(cs[i]);
                    assert(cs@.take(i + 1) =~= cs@.take(i as int).push(cs@[i as int]));
                    i += 1;
                }
                out
            },
            None => {
                proof {
                    let c = choose|k: int| 0 <= k <= s@.len() && #[trigger] byte_len(s@.take(k)) == n;
                    assert(byte_len(s@.take(c)) != n);
                }
                cs
            },
        }
    } else {
        cs
    }
}

/// How many characters from the front of `s` fit in `n` bytes.
pub open spec fn fit_count(s: Seq<char>, n: nat) -> nat
    decreases s.len(),
{
    if s.len() == 0 || utf8_width(s[0]) > n {
        0
    } else {
        1 + fit_count(s.drop_first(), (n - utf8_width(s[0])) as nat)
    }
}

/// The longest prefix of `s` that fits in `n` bytes: `s` cut at the last
/// character boundary at or below `n` bytes.
pub open spec fn byte_prefix_floor(s: Seq<char>, n: nat) -> Seq<char> {
    s.take(fit_count(s, n) as int)
}

proof fn lemma_fit_count(s: Seq<char>, n: nat)
    ensures
        fit_count(s, n) <= s.len(),
        byte_len(s.take(fit_count(s, n) as int)) <= n,
        fit_count(s, n) < s.len() ==> byte_len(s.take(fit_count(s, n) as int)) + utf8_width(s[fit_count(s, n) as int]) > n,
    decreases s.len(),
{
    if s.len() > 0 && utf8_width(s[0]) <= n {
        let m = (n - utf8_width(s[0])) as nat;
        let t = s.drop_first();
        lemma_fit_count(t, m);
        let k = fit_count(t, m) as int;
        lemma_byte_len_first(s.take(k + 1));
        assert(s.take(k + 1).drop_first() =~= t.take(k));
        if k < t.len() {
            lemma_byte_len_first(s.take(k + 2));
            assert(s.take(k + 2).drop_first() =~= t.take(k as int).push(t[k as int]));
            assert(t.take(k as int).push(t[k as int]).drop_last() =~= t.take(k as int));
        }
    } else if s.len() > 0 {
        assert(s.take(0) =~= Seq::<char>::empty());
        lemma_byte_len_first(s.take(1));
        assert(s.take(1).drop_first() =~= Seq::<char>::empty());
    } else {
        assert(s.take(0) =~= Seq::<char>::empty());
    }
}

/// Cutting at the last character boundary at or below `n` bytes keeps within
/// `n` bytes, keeps a prefix, stops only where the next character would not
/// fit, and keeps all of a text that fits.
pub proof fn law_byte_prefix_floor(s: Seq<char>, n: nat)
    ensures
        byte_len(byte_prefix_floor(s, n)) <= n,
        byte_prefix_floor(s, n).len() <= s.len(),
        byte_prefix_floor(s, n) == s.take(byte_prefix_floor(s, n).len() as int),
        byte_prefix_floor(s, n).len() < s.len() ==> byte_len(byte_prefix_floor(s, n))
            + utf8_width(s[byte_prefix_floor(s, n).len() as int]) > n,
        byte_len(s) <= n ==> byte_prefix_floor(s, n) == s,
{
    lemma_fit_count(s, n);
    let k = fit_count(s, n) as int;
    if byte_len(s) <= n && k < s.len() {
        lemma_byte_len_split(s, k);
        assert(s.skip(k) =~= seq![s[k]] + s.skip(k + 1));
        lemma_byte_len_concat(seq![s[k]], s.skip(k + 1));
        assert(seq![s[k]].drop_last() =~= Seq::<char>::empty());
        assert(byte_len(seq![s[k]]) == utf8_width(s[k]));
    }
    if k == s.len() {
        assert(s.take(k) =~= s);
    }
}

/// The characters of `s` that fit in `n` bytes, cut at the last character
/// boundary at or below `n`.
pub fn truncate_floor(s: &str, n: usize) -> (r: Vec<char>)
    ensures
        r@ == byte_prefix_floor(s@, n as nat),
{
    let cs = chars_of(s);
    let mut out: Vec<char> = Vec::new();
    let mut room: usize = n;
    let mut i: usize = 0;
    assert(cs@.skip(0) =~= cs@);
    while i < cs.len()
        invariant
            cs@ == s@,
            i <= cs@.len(),
            out@ == cs@.take(i as int),
            fit_count(cs@, n as nat) == i + fit_count(cs@.skip(i as int), room as nat),
        decreases cs.len() - i,
    {
        let w = utf8_width_exec(cs[i]);
        let ghost rest = cs@.skip(i as int);
        assert(rest[0] == cs@[i as int]);
        if w > room {
            assert(fit_count(rest, room as nat) == 0);
            return out;
        }
        assert(rest.drop_first() =~= cs@.skip(i + 1));
        out.push(cs[i]);
        assert(cs@.take(i + 1) =~= cs@.take(i as int).push(cs@[i as int]));
        room = room - w;
        i += 1;
    }
    assert(cs@.skip(i as int) =~= Seq::<char>::empty());
    out
}

// ──────────────────────────────────────────────
// BinaryField — Toggleable [0] / [1] widget
// ──────────────────────────────────────────────

/// A labelled 0/1 field.
pub struct BinaryField<'a> {
    label: &'a str,
    focused: bool,
}

impl<'a> BinaryField<'a> {
    pub fn new(label: &'a str, focused: bool) -> (r: Self)
        ensures
            r.label_view() == label@,
            r.focused_view() == focused,
    {
        Self { label, focused }
    }

    pub closed spec fn label_view(&self) -> Seq<char> {
        self.label@
    }

    pub closed spec fn focused_view(&self) -> bool {
        self.focused
    }

    /// The field's label.
    pub fn label(&self) -> (r: &'a str)
        ensures
            r@ == self.label_view(),
    {
        self.label
    }

    /// Whether the field has the focus.
    pub fn is_focused(&self) -> (r: bool)
        ensures
            r == self.focused_view(),
    {
        self.focused
    }
}

/// The value shown by a `BinaryField`.
pub struct BinaryFieldState {
    pub value: u8,
}

/// The value after a toggle: 0 becomes 1, anything else becomes 0.
pub open spec fn toggled(v: u8) -> u8 {
    if v == 0 { 1 } else { 0 }
}

impl BinaryFieldState {
    pub fn new(value: u8) -> (r: Self)
        ensures
            r.value == value,
    {
        Self { value }
    }

    pub fn toggle(&mut self)
        ensures
            final(self).value == toggled(old(self).value),
    {
        self.value = if self.value == 0 { 1 } else { 0 };
    }
}

/// Toggling a 0/1 value twice gives it back, and a toggle always yields 0 or 1.
pub proof fn law_toggle_twice(v: u8)
    ensures
        toggled(v) <= 1,
        v <= 1 ==> toggled(toggled(v)) == v,
{
}

// ──────────────────────────────────────────────
// TextInput — Single-line text input with cursor
// ──────────────────────────────────────────────

/// A labelled single-line text input.
pub struct TextInput<'a> {
    label: &'a str,
    focused: bool,
}

impl<'a> TextInput<'a> {
    pub fn new(label: &'a str, focused: bool) -> (r: Self)
        ensures
            r.label_view() == label@,
            r.focused_view() == focused,
    {
        Self { label, focused }
    }

    pub closed spec fn label_view(&self) -> Seq<char> {
        self.label@
    }

    pub closed spec fn focused_view(&self) -> bool {
        self.focused
    }

    /// The input's label.
    pub fn label(&self) -> (r: &'a str)
        ensures
            r@ == self.label_view(),
    {
        self.label
    }

    /// Whether the input has the focus.
    pub fn is_focused(&self) -> (r: bool)
        ensures
            r == self.focused_view(),
    {
        self.focused
    }
}

/// `v` with `c` inserted after its first `k` characters.
pub open spec fn insert_at(v: Seq<char>, k: int, c: char) -> Seq<char> {
    v.take(k).push(c) + v.skip(k)
}

/// `v` without its `k`-th character (counting from one).
pub open spec fn remove_before(v: Seq<char>, k: int) -> Seq<char> {
    v.take(k - 1) + v.skip(k)
}

/// Deleting back right after an insertion restores the text, and the cursor
/// returns to the same character boundary (and so the same byte offset).
pub proof fn law_insert_then_delete_back(v: Seq<char>, k: int, c: char)
    requires
        0 <= k <= v.len(),
    ensures
        remove_before(insert_at(v, k, c), k + 1) == v,
        insert_at(v, k, c).take(k) == v.take(k),
        0 <= k + 1 <= insert_at(v, k, c).len(),
{
    assert(remove_before(insert_at(v, k, c), k + 1) =~= v);
    assert(insert_at(v, k, c).take(k) =~= v.take(k));
}

/// Text being edited; `cursor` is a byte offset into `value` that lies on a
/// character boundary.
pub struct TextInputState {
    pub value: String,
    pub cursor: usize,
}

impl TextInputState {
    /// The cursor lies on a character boundary (and the text's byte length fits a `usize`).
    pub open spec fn wf(&self) -> bool {
        &&& byte_len(self.value@) <= usize::MAX
        &&& exists|k: int| 0 <= k <= self.value@.len() && #[trigger] byte_len(self.value@.take(k)) == self.cursor
    }

    /// Number of characters before the cursor.
    pub open spec fn char_cursor(&self) -> int {
        choose|k: int| 0 <= k <= self.value@.len() && #[trigger] byte_len(self.value@.take(k)) == self.cursor
    }

    /// The cursor stands after the `k`-th character.
    pub open spec fn cursor_after(&self, k: int) -> bool {
        0 <= k <= self.value@.len() && byte_len(self.value@.take(k)) == self.cursor
    }

    /// `c` can be inserted: the cursor is valid and the longer text still fits.
    pub open spec fn can_insert(&self, c: char) -> bool {
        self.wf() && byte_len(self.value@) + utf8_width(c) <= usize::MAX
    }

    /// `next` is `self` after inserting `c` at the cursor.
    pub open spec fn inserted(&self, next: Self, c: char) -> bool {
        &&& next.wf()
        &&& next.value@ == insert_at(self.value@, self.char_cursor(), c)
        &&& next.cursor_after(self.char_cursor() + 1)
        &&& next.cursor == self.cursor + utf8_width(c)
    }

    /// `next` is `self` after deleting the character before the cursor.
    pub open spec fn deleted_back(&self, next: Self) -> bool {
        &&& next.wf()
        &&& self.char_cursor() == 0 ==> next.value@ == self.value@ && next.cursor == self.cursor
        &&& self.char_cursor() > 0 ==> {
            &&& next.value@ == remove_before(self.value@, self.char_cursor())
            &&& next.cursor_after(self.char_cursor() - 1)
        }
    }

    /// `next` is `self` after moving the cursor one character left.
    pub open spec fn moved_left(&self, next: Self) -> bool {
        &&& next.wf()
        &&& next.value@ == self.value@
        &&& self.char_cursor() == 0 ==> next.cursor == self.cursor
        &&& self.char_cursor() > 0 ==> next.cursor_after(self.char_cursor() - 1)
    }

    /// `next` is `self` after moving the cursor one character right.
    pub open spec fn moved_right(&self, next: Self) -> bool {
        &&& next.wf()
        &&& next.value@ == self.value@
        &&& self.char_cursor() == self.value@.len() ==> next.cursor == self.cursor
        &&& self.char_cursor() < self.value@.len() ==> next.cursor_after(self.char_cursor() + 1)
    }

    /// A fresh input holding `value`, with the cursor at its end.
    pub open spec fn fresh(&self, value: Seq<char>) -> bool {
        &&& self.value@ == value
        &&& self.cursor_after(value.len() as int)
        &&& self.wf()
    }

    pub fn new(value: String) -> (r: Self)
        requires
            byte_len(value@) <= usize::MAX,
        ensures
            r.value@ == value@,
            r.cursor_after(value@.len() as int),
            r.wf(),
    {
        let cursor = value.as_str().len();
        proof {
            lemma_encode_len(value@);
            assert(value@.take(value@.len() as int) =~= value@);
        }
        Self { value, cursor }
    }

    /// Whether the cursor lies on a character boundary, so that editing is defined.
    pub fn cursor_is_valid(&self) -> (r: bool)
        ensures
            r == self.wf(),
    {
        let cs = chars_of(self.value.as_str());
        if byte_len_exec(cs.as_slice()) > usize::MAX as u128 {
            return false;
        }
        match chars_before(cs.as_slice(), self.cursor) {
            Some(k) => {
                assert(self.cursor_after(k as int));
                true
            }
            None => false,
        }
    }

    /// The text as shown with the cursor: the characters before it, the
    /// character under it (a space at the end), and the characters after that.
    pub open spec fn display_parts_of(&self) -> (Seq<char>, char, Seq<char>) {
        let k = self.char_cursor();
        let v = self.value@;
        if k < v.len() {
            (v.take(k), v[k], v.skip(k + 1))
        } else {
            (v, ' ', Seq::empty())
        }
    }

    /// Splits the text at the cursor for display.
    pub fn display_parts(&self) -> (r: (String, char, String))
        requires
            self.wf(),
        ensures
            (r.0@, r.1, r.2@) == self.display_parts_of(),
    {
        let cs = chars_of(self.value.as_str());
        let k = match chars_before(cs.as_slice(), self.cursor) {
            Some(k) => k,
            None => {
                proof {
                    assert(self.cursor_after(self.char_cursor()));
                }
                cs.len()
            },
        };
        proof {
            assert(self.cursor_after(self.char_cursor()));
            lemma_prefix_unique(self.value@, k as int, self.char_cursor());
        }
        let mut before: Vec<char> = Vec::new();
        let mut i: usize = 0;
        while i < k
            invariant
                i <= k <= cs@.len(),
                before@ == cs@.take(i as int),
            decreases k - i,
        {
            before.push(cs[i]);
            assert(cs@.take(i + 1) =~= cs@.take(i as int).push(cs@[i as int]));
            i += 1;
        }
        if k < cs.len() {
            let c = cs[k];
            let mut after: Vec<char> = Vec::new();
            let mut j: usize = k + 1;
            while j < cs.len()
                invariant
                    k < j <= cs@.len(),
                    after@ == cs@.subrange(k + 1, j as int),
                decreases cs.len() - j,
            {
                after.push(cs[j]);
                assert(cs@.subrange(k + 1, j + 1) =~= cs@.subrange(k + 1, j as int).push(cs@[j as int]));
                j += 1;
            }
            assert(cs@.subrange(k + 1, cs@.len() as int) =~= cs@.skip(k + 1));
            (string_from_chars(before.as_slice()), c, string_from_chars(after.as_slice()))
        } else {
            assert(cs@.take(k as int) =~= cs@);
            (string_from_chars(before.as_slice()), ' ', String::new())
        }
    }

    /// Inserts `c` at the cursor and moves the cursor past it.
    pub fn insert(&mut self, c: char)
        requires
            old(self).wf(),
            byte_len(old(self).value@) + utf8_width(c) <= usize::MAX,
        ensures
            final(self).wf(),
            final(self).value@ == insert_at(old(self).value@, old(self).char_cursor(), c),
            final(self).cursor_after(old(self).char_cursor() + 1),
            final(self).cursor == old(self).cursor + utf8_width(c),
    {
        let cs = chars_of(self.value.as_str());
        let k = match chars_before(cs.as_slice(), self.cursor) {
            Some(k) => k,
            None => {
                proof { assert(self.cursor_after(self.char_cursor())); }
                return;
            }
        };
        let ghost old_v = self.value@;
        proof {
            lemma_prefix_unique(old_v, k as int, self.char_cursor());
            lemma_byte_len_split(old_v, k as int);
        }
        let mut v: Vec<char> = Vec::new();
        let mut i: usize = 0;
        while i < k
            invariant
                i <= k <= cs.len(),
                v@ == cs@.take(i as int),
            decreases k - i,
        {
            v.push(cs[i]);
            assert(cs@.take(i + 1) =~= cs@.take(i as int).push(cs@[i as int]));
            i += 1;
        }
        v.push(c);
        let ghost before = v@;
        while i < cs.len()
            invariant
                k <= i <= cs.len(),
                v@ == before + cs@.subrange(k as int, i as int),
            decreases cs.len() - i,
        {
            v.push(cs[i]);
            assert(cs@.subrange(k as int, i + 1) =~= cs@.subrange(k as int, i as int).push(cs@[i as int]));
            i += 1;
        }
        let w = utf8_width_exec(c);
        self.value = string_from_chars(v.as_slice());
        self.cursor = self.cursor + w;
        proof {
            assert(cs@.subrange(k as int, cs.len() as int) =~= old_v.skip(k as int));
            let nv = self.value@;
            assert(nv.take(k + 1) =~= old_v.take(k as int).push(c));
            assert(old_v.take(k as int).push(c).drop_last() =~= old_v.take(k as int));
            assert(self.cursor_after(k + 1));
            lemma_byte_len_split(nv, k + 1);
            assert(nv.skip(k + 1) =~= old_v.skip(k as int));
        }
    }

    /// Removes the character before the cursor, if any.
    pub fn delete_back(&mut self)
        requires
            old(self).wf(),
        ensures
            final(self).wf(),
            old(self).char_cursor() == 0 ==> final(self).value@ == old(self).value@
                && final(self).cursor == old(self).cursor,
            old(self).char_cursor() > 0 ==> {
                &&& final(self).value@ == remove_before(old(self).value@, old(self).char_cursor())
                &&& final(self).cursor_after(old(self).char_cursor() - 1)
            },
    {
        let ghost k0 = self.char_cursor();
        proof {
            assert(self.cursor_after(k0));
        }
        if self.cursor > 0 {
            let cs = chars_of(self.value.as_str());
            let k = match chars_before(cs.as_slice(), self.cursor) {
                Some(k) => k,
                None => {
                    return;
                }
            };
            let ghost old_v = self.value@;
            proof {
                lemma_prefix_unique(old_v, k as int, k0);
                assert(k > 0) by {
                    if k == 0 {
                        assert(old_v.take(0) =~= Seq::<char>::empty());
                    }
                }
            }
            let mut v: Vec<char> = Vec::new();
            let mut i: usize = 0;
            let mut prev: usize = 0;
            while i < k - 1
                invariant
                    i <= k - 1,
                    k <= cs.len(),
                    v@ == cs@.take(i as int),
                    prev == byte_len(cs@.take(i as int)),
                    prev <= self.cursor,
                    self.cursor == byte_len(cs@.take(k as int)),
                decreases k - 1 - i,
            {
                let w = utf8_width_exec(cs[i]);
                proof {
                    assert(cs@.take(i + 1).drop_last() =~= cs@.take(i as int));
                    lemma_prefix_strict(cs@, i + 1, k as int);
                }
                prev = prev + w;
                v.push(cs[i]);
                assert(cs@.take(i + 1) =~= cs@.take(i as int).push(cs@[i as int]));
                i += 1;
            }
            let ghost before = v@;
            i = k;
            while i < cs.len()
                invariant
                    k <= i <= cs.len(),
                    v@ == before + cs@.subrange(k as int, i as int),
                decreases cs.len() - i,
            {
                v.push(cs[i]);
                assert(cs@.subrange(k as int, i + 1) =~= cs@.subrange(k as int, i as int).push(cs@[i as int]));
                i += 1;
            }
            self.value = string_from_chars(v.as_slice());
            self.cursor = prev;
            proof {
                assert(cs@.subrange(k as int, cs.len() as int) =~= old_v.skip(k as int));
                let nv = self.value@;
                assert(nv.take(k - 1) =~= old_v.take(k - 1));
                assert(self.cursor_after(k - 1));
                lemma_byte_len_split(nv, k - 1);
                assert(nv.skip(k - 1) =~= old_v.skip(k as int));
                lemma_byte_len_split(old_v, k as int);
                lemma_prefix_strict(old_v, k - 1, k as int);
            }
        } else {
            proof {
                assert(self.cursor_after(0)) by {
                    assert(self.value@.take(0) =~= Seq::<char>::empty());
                }
                lemma_prefix_unique(self.value@, 0, k0);
            }
        }
    }

    /// Moves the cursor one character to the left, if it can.
    pub fn move_left(&mut self)
        requires
            old(self).wf(),
        ensures
            final(self).wf(),
            final(self).value@ == old(self).value@,
            old(self).char_cursor() == 0 ==> final(self).cursor == old(self).cursor,
            old(self).char_cursor() > 0 ==> final(self).cursor_after(old(self).char_cursor() - 1),
    {
        let ghost k0 = self.char_cursor();
        proof {
            assert(self.cursor_after(k0));
        }
        if self.cursor > 0 {
            let cs = chars_of(self.value.as_str());
            let k = match chars_before(cs.as_slice(), self.cursor) {
                Some(k) => k,
                None => {
                    return;
                }
            };
            proof {
                lemma_prefix_unique(cs@, k as int, k0);
                assert(k > 0) by {
                    if k == 0 {
                        assert(cs@.take(0) =~= Seq::<char>::empty());
                    }
                }
                assert(cs@.take(k as int).drop_last() =~= cs@.take(k - 1));
            }
            let w = utf8_width_exec(cs[k - 1]);
            self.cursor = self.cursor - w;
            proof {
                assert(self.cursor_after(k - 1));
            }
        } else {
            proof {
                assert(self.value@.take(0) =~= Seq::<char>::empty());
                lemma_prefix_unique(self.value@, 0, k0);
            }
        }
    }

    /// Moves the cursor one character to the right, if it can.
    pub fn move_right(&mut self)
        requires
            old(self).wf(),
        ensures
            final(self).wf(),
            final(self).value@ == old(self).value@,
            old(self).char_cursor() == old(self).value@.len() ==> final(self).cursor == old(self).cursor,
            old(self).char_cursor() < old(self).value@.len() ==> final(self).cursor_after(old(self).char_cursor() + 1),
    {
        let ghost k0 = self.char_cursor();
        proof {
            assert(self.cursor_after(k0));
            lemma_encode_len(self.value@);
            assert(self.value@.take(self.value@.len() as int) =~= self.value@);
        }
        if self.cursor < self.value.as_str().len() {
            let cs = chars_of(self.value.as_str());
            let k = match chars_before(cs.as_slice(), self.cursor) {
                Some(k) => k,
                None => {
                    return;
                }
            };
            proof {
                lemma_prefix_unique(cs@, k as int, k0);
                assert(k < cs.len());
                assert(cs@.take(k + 1).drop_last() =~= cs@.take(k as int));
                if k + 1 < cs.len() {
                    lemma_prefix_strict(cs@, k + 1, cs@.len() as int);
                } else {
                    assert(cs@.take(k + 1) =~= cs@);
                }
            }
            let w = utf8_width_exec(cs[k]);
            self.cursor = self.cursor + w;
            proof {
                assert(self.cursor_after(k + 1));
            }
        } else {
            proof {
                if k0 < self.value@.len() {
                    lemma_prefix_strict(self.value@, k0, self.value@.len() as int);
                }
            }
        }
    }
}

// ──────────────────────────────────────────────
// ProgressList — Items with status icons
// ──────────────────────────────────────────────

#[derive(Debug, Clone, Copy, PartialEq, Eq, Structural)]
pub enum ProgressStatus {
    Pending,
    Active,
    Done,
    Failed,
}

/// The icon shown for a status.
pub open spec fn status_icon_of(status: ProgressStatus) -> Seq<char> {
    match status {
        ProgressStatus::Done => "✓"@,
        ProgressStatus::Active => "⟳"@,
        ProgressStatus::Pending => "○"@,
        ProgressStatus::Failed => "✗"@,
    }
}

pub fn status_icon(status: ProgressStatus) -> (r: &'static str)
    ensures
        r@ == status_icon_of(status),
{
    match status {
        ProgressStatus::Done => "✓",
        ProgressStatus::Active => "⟳",
        ProgressStatus::Pending => "○",
        ProgressStatus::Failed => "✗",
    }
}

/// The detail shown after an item's label: two spaces and the detail, or
/// nothing for an empty detail.
pub open spec fn detail_note_of(detail: Seq<char>) -> Seq<char> {
    if detail.len() > 0 { "  "@ + detail } else { Seq::empty() }
}

pub fn detail_note(detail: &str) -> (r: String)
    ensures
        r@ == detail_note_of(detail@),
{
    if detail.is_empty() {
        String::new()
    } else {
        let mut s = String::from_str("  ");
        crate::text::push_str(&mut s, detail);
        s
    }
}

#[derive(Debug, Clone)]
pub struct ProgressItem {
    pub label: String,
    pub status: ProgressStatus,
    pub detail: String,
}

/// A titled list of progress items.
pub struct ProgressList<'a> {
    title: &'a str,
}

impl<'a> ProgressList<'a> {
    pub fn new(title: &'a str) -> (r: Self)
        ensures
            r.title_view() == title@,
    {
        Self { title }
    }

    pub closed spec fn title_view(&self) -> Seq<char> {
        self.title@
    }

    /// The list's title.
    pub fn title(&self) -> (r: &'a str)
        ensures
            r@ == self.title_view(),
    {
        self.title
    }
}

pub struct ProgressListState {
    pub items: Vec<ProgressItem>,
}

impl ProgressListState {
    pub fn new() -> (r: Self)
        ensures
            r.items@.len() == 0,
    {
        Self { items: Vec::new() }
    }
}


/// The parts shown for a text input put back together give its text: the
/// part before the cursor, the character under it, and the rest.
pub proof fn law_display_parts_rebuild(s: TextInputState)
    requires
        s.wf(),
    ensures
        ({
            let (before, under, after) = s.display_parts_of();
            if s.char_cursor() < s.value@.len() {
                before + seq![under] + after == s.value@
            } else {
                before == s.value@ && after.len() == 0
            }
        }),
{
    let k = s.char_cursor();
    assert(s.cursor_after(k));
    if k < s.value@.len() {
        assert(s.value@.take(k) + seq![s.value@[k]] + s.value@.skip(k + 1) =~= s.value@);
    }
}

/// Moving right and then left returns the cursor to where it was (when it was
/// not at the end): `s1` is what `move_right` makes of `s0`, `s2` what
/// `move_left` makes of `s1`, as their contracts describe.
pub proof fn law_move_right_then_left(s0: TextInputState, s1: TextInputState, s2: TextInputState)
    requires
        s0.wf(),
        s0.char_cursor() < s0.value@.len(),
        s1.wf(),
        s1.value@ == s0.value@,
        s1.cursor_after(s0.char_cursor() + 1),
        s2.value@ == s1.value@,
        s1.char_cursor() > 0 ==> s2.cursor_after(s1.char_cursor() - 1),
    ensures
        s2.cursor == s0.cursor,
{
    let k = s0.char_cursor();
    assert(s0.cursor_after(k));
    assert(s1.cursor_after(s1.char_cursor()));
    lemma_prefix_unique(s1.value@, s1.char_cursor(), k + 1);
}

/// Moving left and then right returns the cursor to where it was (when it was
/// not at the start).
pub proof fn law_move_left_then_right(s0: TextInputState, s1: TextInputState, s2: TextInputState)
    requires
        s0.wf(),
        s0.char_cursor() > 0,
        s1.wf(),
        s1.value@ == s0.value@,
        s1.cursor_after(s0.char_cursor() - 1),
        s2.value@ == s1.value@,
        s1.char_cursor() < s1.value@.len() ==> s2.cursor_after(s1.char_cursor() + 1),
    ensures
        s2.cursor == s0.cursor,
{
    let k = s0.char_cursor();
    assert(s0.cursor_after(k));
    assert(s1.cursor_after(s1.char_cursor()));
    lemma_prefix_unique(s1.value@, s1.char_cursor(), k - 1);
}

/// Inserting a character and then deleting back restores the text and the
/// cursor: `s1` is what `insert` makes of `s0`, `s2` what `delete_back` makes
/// of `s1`.
pub proof fn law_insert_delete_restores(s0: TextInputState, s1: TextInputState, s2: TextInputState, c: char)
    requires
        s0.wf(),
        s0.inserted(s1, c),
        s1.deleted_back(s2),
    ensures
        s2.value@ == s0.value@,
        s2.cursor == s0.cursor,
{
    let k = s0.char_cursor();
    assert(s0.cursor_after(k));
    assert(s1.cursor_after(s1.char_cursor()));
    lemma_prefix_unique(s1.value@, s1.char_cursor(), k + 1);
    law_insert_then_delete_back(s0.value@, k, c);
    assert(s2.cursor_after(s2.char_cursor()));
    assert(s2.cursor_after(k));
}

} // verus!
