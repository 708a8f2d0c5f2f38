//! The text format of a character definition: one `key=value` entry per line.
//! Lines starting with `//` are comments; a key starting with `.` is metadata
//! (`.name` names the character); any other key is an animation whose value is
//! its frame count.
use vstd::prelude::*;

use crate::gremlin::{with_sheet, AnimationProperties, Gremlin};
use vstd::std_specs::iter::IteratorSpec;

verus! {

/// The characters of `s`, in order.
pub(crate) fn chars_of(s: &str) -> (r: Vec<char>)
    ensures
        r@ == s@,
{
    let mut it = s.chars();
    let mut out: Vec<char> = Vec::new();
    loop
        invariant
            it.obeys_prophetic_iter_laws(),
            it.decrease() is Some,
            out@ + it.remaining() == s@,
        decreases it.decrease()->0,
    {
        let ghost before = it.remaining();
        match it.next() {
            Some(c) => {
                out.push(c);
                assert(out@ + it.remaining() =~= s@) by {
                    assert(before =~= seq![c] + it.remaining());
                }
            },
            None => {
                assert(out@ =~= s@);
                return out;
            },
        }
    }
}

/// Relies on `String::push`: appends one character.
#[verifier::external_body]
fn push_char(s: &mut String, c: char)
    ensures
        final(s)@ == old(s)@.push(c),
{
    s.push(c)
}

pub uninterp spec fn upper_of(s: Seq<char>) -> Seq<char>;

/// Relies on `str::to_uppercase`: the result depends on the characters alone.
#[verifier::external_body]
fn to_uppercase(s: &str) -> (r: String)
    ensures
        r@ == upper_of(s@),
{
    s.to_uppercase()
}

/// The first position of `c` in `t`, or the length of `t` when it does not occur.
pub open spec fn first_index_of(t: Seq<char>, c: char) -> int
    decreases t.len(),
{
    if t.len() == 0 {
        0
    } else if t[0] == c {
        0
    } else {
        1 + first_index_of(t.drop_first(), c)
    }
}

proof fn lemma_first_index_of(t: Seq<char>, c: char)
    ensures
        0 <= first_index_of(t, c) <= t.len(),
        first_index_of(t, c) < t.len() ==> t[first_index_of(t, c)] == c,
        forall|j: int| 0 <= j < first_index_of(t, c) ==> t[j] != c,
    decreases t.len(),
{
    if t.len() > 0 && t[0] != c {
        lemma_first_index_of(t.drop_first(), c);
        assert forall|j: int| 0 <= j < first_index_of(t, c) implies t[j] != c by {
            if j > 0 {
                assert(t[j] == t.drop_first()[j - 1]);
            }
        }
    }
}

proof fn lemma_first_index_is(t: Seq<char>, c: char, k: int)
    requires
        0 <= k <= t.len(),
        k < t.len() ==> t[k] == c,
        forall|j: int| 0 <= j < k ==> t[j] != c,
    ensures
        first_index_of(t, c) == k,
{
    lemma_first_index_of(t, c);
    if first_index_of(t, c) < k {
        assert(t[first_index_of(t, c)] == c);
    } else if first_index_of(t, c) > k {
        assert(t[k] != c);
    }
}

/// A line without the carriage return that ended it.
pub open spec fn strip_cr(line: Seq<char>) -> Seq<char> {
    if line.len() > 0 && line.last() == '\r' {
        line.drop_last()
    } else {
        line
    }
}

/// The lines of a text: split at each newline, a carriage return before the newline
/// dropped, and no empty line after a final newline.
pub open spec fn lines_of(t: Seq<char>) -> Seq<Seq<char>>
    decreases t.len(),
{
    if t.len() == 0 {
        seq![]
    } else {
        let k = first_index_of(t, '\n');
        if 0 <= k < t.len() {
            seq![strip_cr(t.take(k))] + lines_of(t.skip(k + 1))
        } else {
            seq![t]
        }
    }
}

/// The value of a run of decimal digits.
pub open spec fn digits_value(s: Seq<char>) -> int
    decreases s.len(),
{
    if s.len() == 0 {
        0
    } else {
        digits_value(s.drop_last()) * 10 + (s.last() as int - '0' as int)
    }
}

pub open spec fn is_digit(c: char) -> bool {
    '0' <= c <= '9'
}

/// The text of a number without its leading `+`, if any.
pub open spec fn unsigned_digits(v: Seq<char>) -> Seq<char> {
    if v.len() > 0 && v[0] == '+' {
        v.drop_first()
    } else {
        v
    }
}

/// A decimal number that fits in `u32`, with an optional leading `+`.
pub open spec fn spec_parse_u32(v: Seq<char>) -> Option<u32> {
    let d = unsigned_digits(v);
    if d.len() > 0 && (forall|i: int| 0 <= i < d.len() ==> is_digit(#[trigger] d[i])) && digits_value(d)
        <= u32::MAX {
        Some(digits_value(d) as u32)
    } else {
        None
    }
}

/// What a definition holds: the name, the metadata entries and the animations with
/// their frame counts, each in the order of the lines.
pub type DefinitionView = (Seq<char>, Seq<(Seq<char>, Seq<char>)>, Seq<(Seq<char>, u32)>);

/// What one line adds.
pub open spec fn apply_line(d: DefinitionView, line: Seq<char>) -> DefinitionView {
    let k = first_index_of(line, '=');
    let key = line.take(k);
    let value = line.skip(k + 1);
    if line.len() >= 2 && line[0] == '/' && line[1] == '/' {
        d
    } else if k >= line.len() || first_index_of(value, '=') < value.len() {
        d
    } else if key.len() > 0 && key[0] == '.' {
        if key == ".name"@ {
            (value, d.1, d.2)
        } else {
            (d.0, d.1.push((key, value)), d.2)
        }
    } else {
        match spec_parse_u32(value) {
            Some(n) => (d.0, d.1, d.2.push((key, n))),
            None => d,
        }
    }
}

pub open spec fn apply_lines(d: DefinitionView, lines: Seq<Seq<char>>) -> DefinitionView
    decreases lines.len(),
{
    if lines.len() == 0 {
        d
    } else {
        apply_lines(apply_line(d, lines[0]), lines.drop_first())
    }
}

/// What a definition text says.
pub open spec fn spec_definition(t: Seq<char>) -> DefinitionView {
    apply_lines((seq![], seq![], seq![]), lines_of(t))
}

/// A character as a definition sees it.
pub open spec fn definition_view(g: Gremlin) -> DefinitionView {
    (
        g.name@,
        g.metadata@.map_values(|e: (String, String)| (e.0@, e.1@)),
        g.animation_map@.map_values(|a: AnimationProperties| (a.animation_name@, a.sprite_count)),
    )
}

fn string_of(v: &Vec<char>, lo: usize, hi: usize) -> (r: String)
    requires
        lo <= hi <= v@.len(),
    ensures
        r@ == v@.subrange(lo as int, hi as int),
{
    let mut s = String::new();
    let mut i = lo;
    while i < hi
        invariant
            lo <= i <= hi,
            hi <= v@.len(),
            s@ == v@.subrange(lo as int, i as int),
        decreases hi - i,
    {
        push_char(&mut s, v[i]);
        assert(v@.subrange(lo as int, i + 1) =~= v@.subrange(lo as int, i as int).push(v@[i as int]));
        i = i + 1;
    }
    s
}

proof fn lemma_digits_grow(s: Seq<char>, i: int)
    requires
        0 <= i <= s.len(),
        forall|j: int| 0 <= j < s.len() ==> is_digit(#[trigger] s[j]),
    ensures
        digits_value(s.take(i)) <= digits_value(s),
        digits_value(s.take(i)) >= 0,
    decreases s.len() - i,
{
    if i < s.len() {
        lemma_digits_grow(s, i + 1);
        assert(s.take(i + 1).drop_last() =~= s.take(i));
    } else {
        assert(s.take(i) =~= s);
    }
    lemma_digits_nonneg(s.take(i));
}

proof fn lemma_digits_nonneg(s: Seq<char>)
    requires
        forall|j: int| 0 <= j < s.len() ==> is_digit(#[trigger] s[j]),
    ensures
        digits_value(s) >= 0,
    decreases s.len(),
{
    if s.len() > 0 {
        lemma_digits_nonneg(s.drop_last());
    }
}

/// Reads `v[lo..hi]` as a `u32` in decimal, with an optional leading `+`.
pub(crate) fn parse_u32(v: &Vec<char>, lo: usize, hi: usize) -> (r: Option<u32>)
    requires
        lo <= hi <= v@.len(),
    ensures
        r == spec_parse_u32(v@.subrange(lo as int, hi as int)),
{
    let ghost w = v@.subrange(lo as int, hi as int);
    let mut start = lo;
    if lo < hi && v[lo] == '+' {
        start = lo + 1;
    }
    let ghost d = v@.subrange(start as int, hi as int);
    assert(d =~= unsigned_digits(w));
    if start == hi {
        assert(d.len() == 0);
        return None;
    }
    let mut value: u32 = 0;
    let mut i = start;
    while i < hi
        invariant
            start <= i <= hi,
            lo <= start,
            hi <= v@.len(),
            d == v@.subrange(start as int, hi as int),
            d == unsigned_digits(w),
            w == v@.subrange(lo as int, hi as int),
            forall|j: int| 0 <= j < i - start ==> is_digit(#[trigger] d[j]),
            value == digits_value(d.take(i - start)),
        decreases hi - i,
    {
        let c = v[i];
        if !('0' <= c && c <= '9') {
            assert(!is_digit(d[i - start]));
            assert(!(forall|j: int| 0 <= j < d.len() ==> is_digit(#[trigger] d[j])));
            return None;
        }
        let digit = (c as u32) - ('0' as u32);
        assert(d.take(i - start + 1).drop_last() =~= d.take(i - start));
        if value > (u32::MAX - digit) / 10 {
            proof {
                assert(digits_value(d.take(i - start + 1)) > u32::MAX) by (nonlinear_arith)
                    requires
                        value > (u32::MAX - digit) / 10,
                        digits_value(d.take(i - start + 1)) == value * 10 + digit,
                        digit <= 9,
                ;
                let k = i - start + 1;
                if forall|j: int| 0 <= j < d.len() ==> is_digit(#[trigger] d[j]) {
                    lemma_digits_grow(d, k);
                    assert(digits_value(d) > u32::MAX);
                }
                assert(spec_parse_u32(w).is_none());
            }
            return None;
        }
        assert(value * 10 + digit <= u32::MAX) by (nonlinear_arith)
            requires
                value <= (u32::MAX - digit) / 10,
                digit <= 9,
        ;
        value = value * 10 + digit;
        i = i + 1;
    }
    assert(d.take(hi - start) =~= d);
    Some(value)
}

impl Gremlin {
    /// Applies the line `t[lo..hi]`.
    fn apply_line_chars(&mut self, t: &Vec<char>, lo: usize, hi: usize)
        requires
            lo <= hi <= t@.len(),
        ensures
            definition_view(*final(self)) == apply_line(definition_view(*old(self)), t@.subrange(lo as int, hi as int)),
            final(self).animator == old(self).animator,
            forall|i: int| 0 <= i < old(self).animation_map@.len() ==> final(self).animation_map@[i] == old(self).animation_map@[i],
            forall|i: int| old(self).animation_map@.len() <= i < final(self).animation_map@.len()
                ==> (#[trigger] final(self).animation_map@[i]).sprite_path.is_none(),
    {
        let ghost line = t@.subrange(lo as int, hi as int);
        if hi - lo >= 2 && t[lo] == '/' && t[lo + 1] == '/' {
            return;
        }
        // the first '=' and whether another follows
        let mut k = lo;
        while k < hi && t[k] != '='
            invariant
                lo <= k <= hi,
                hi <= t@.len(),
                forall|j: int| lo <= j < k ==> t@[j] != '=',
            decreases hi - k,
        {
            k = k + 1;
        }
        proof {
            lemma_first_index_is(line, '=', k - lo);
        }
        if k == hi {
            return;
        }
        let mut m = k + 1;
        while m < hi && t[m] != '='
            invariant
                k + 1 <= m <= hi,
                hi <= t@.len(),
                forall|j: int| k + 1 <= j < m ==> t@[j] != '=',
            decreases hi - m,
        {
            m = m + 1;
        }
        let ghost value = line.skip(k - lo + 1);
        assert(value =~= t@.subrange(k + 1, hi as int));
        proof {
            lemma_first_index_is(value, '=', m - k - 1);
        }
        if m < hi {
            return;
        }
        let ghost key = line.take(k - lo);
        assert(key =~= t@.subrange(lo as int, k as int));
        let ghost d0 = definition_view(*self);
        if k > lo && t[lo] == '.' {
            let key_s = string_of(t, lo, k);
            let value_s = string_of(t, k + 1, hi);
            let dot_name = ".name".to_owned();
            proof {
                reveal_strlit(".name");
            }
            if key_s == dot_name {
                self.name = value_s;
            } else {
                self.metadata.push((key_s, value_s));
                assert(definition_view(*self).1 =~= d0.1.push((key, value)));
            }
        } else {
            match parse_u32(t, k + 1, hi) {
                Some(n) => {
                    let key_s = string_of(t, lo, k);
                    self.insert_animation(AnimationProperties::new(key_s, n));
                    assert(definition_view(*self).2 =~= d0.2.push((key, n)));
                },
                None => {},
            }
        }
    }

    /// The character that a definition text describes, with no sheets found yet.
    /// An animation or metadata key given twice counts by its last line.
    pub fn from_definition(text: &str) -> (r: Gremlin)
        ensures
            definition_view(r) == spec_definition(text@),
            r.animator.is_none(),
            forall|i: int| 0 <= i < r.animation_map@.len() ==> (#[trigger] r.animation_map@[i]).sprite_path.is_none(),
    {
        let t = chars_of(text);
        let mut g = Gremlin::new(String::new());
        let ghost init: DefinitionView = (seq![], seq![], seq![]);
        assert(definition_view(g).1 =~= init.1);
        assert(definition_view(g).2 =~= init.2);
        assert(t@.skip(0) =~= text@);
        let mut start: usize = 0;
        while start < t.len()
            invariant
                start <= t@.len(),
                t@ == text@,
                apply_lines(definition_view(g), lines_of(t@.skip(start as int))) == spec_definition(text@),
                g.animator.is_none(),
                forall|i: int| 0 <= i < g.animation_map@.len() ==> (#[trigger] g.animation_map@[i]).sprite_path.is_none(),
            decreases t@.len() - start,
        {
            let ghost rest = t@.skip(start as int);
            let mut k = start;
            while k < t.len() && t[k] != '\n'
                invariant
                    start <= k <= t@.len(),
                    forall|j: int| start <= j < k ==> t@[j] != '\n',
                decreases t@.len() - k,
            {
                k = k + 1;
            }
            proof {
                lemma_first_index_is(rest, '\n', k - start);
            }
            if k < t.len() {
                let mut end = k;
                if end > start && t[end - 1] == '\r' {
                    end = end - 1;
                }
                assert(t@.subrange(start as int, end as int) =~= strip_cr(rest.take(k - start)));
                assert(rest.skip(k - start + 1) =~= t@.skip(k + 1));
                let ghost line = strip_cr(rest.take(k - start));
                let ghost later = lines_of(t@.skip(k + 1));
                assert(lines_of(rest) == seq![line] + later);
                assert((seq![line] + later).drop_first() =~= later);
                assert((seq![line] + later)[0] == line);
                g.apply_line_chars(&t, start, end);
                start = k + 1;
            } else {
                assert(t@.subrange(start as int, k as int) =~= rest);
                assert(lines_of(rest) == seq![rest]);
                assert(seq![rest].drop_first() =~= Seq::<Seq<char>>::empty());
                assert(lines_of(Seq::<char>::empty()) =~= Seq::<Seq<char>>::empty());
                g.apply_line_chars(&t, start, k);
                assert(t@.skip(k as int) =~= Seq::<char>::empty());
                start = k;
            }
        }
        assert(t@.skip(start as int) =~= Seq::<char>::empty());
        g
    }
}

/// Whether `t` ends with `suffix`.
pub open spec fn ends_with(t: Seq<char>, suffix: Seq<char>) -> bool {
    suffix.len() <= t.len() && t.skip(t.len() - suffix.len()) == suffix
}

/// An upper-cased file name without its ".PNG" ending; `None` without that ending.
pub open spec fn spec_strip_png(upper: Seq<char>) -> Option<Seq<char>> {
    if ends_with(upper, ".PNG"@) {
        Some(upper.take(upper.len() - 4))
    } else {
        None
    }
}

/// The upper-cased file name without its ".PNG" ending.
pub fn strip_png_suffix(upper: &String) -> (r: Option<String>)
    ensures
        match r {
            Some(s) => spec_strip_png(upper@) == Some(s@),
            None => spec_strip_png(upper@).is_none(),
        },
{
    let t = chars_of(upper.as_str());
    proof {
        reveal_strlit(".PNG");
    }
    let n = t.len();
    if n >= 4 && t[n - 4] == '.' && t[n - 3] == 'P' && t[n - 2] == 'N' && t[n - 1] == 'G' {
        assert(t@.skip(n - 4) =~= ".PNG"@);
        Some(string_of(&t, 0, n - 4))
    } else {
        assert(!ends_with(t@, ".PNG"@)) by {
            if ends_with(t@, ".PNG"@) {
                assert(t@.skip(n - 4)[0] == t@[n - 4]);
                assert(t@.skip(n - 4)[1] == t@[n - 3]);
                assert(t@.skip(n - 4)[2] == t@[n - 2]);
                assert(t@.skip(n - 4)[3] == t@[n - 1]);
            }
        }
        None
    }
}

/// The animation a sheet file named `f` is for.
pub open spec fn sheet_name(f: Seq<char>) -> Option<Seq<char>> {
    if ends_with(f, ".png"@) {
        spec_strip_png(upper_of(f))
    } else {
        None
    }
}

/// The animations after each file of `files` (name, path), in order, gave its
/// sheet to the animation it is named for.
pub open spec fn attached(s: Seq<AnimationProperties>, files: Seq<(String, String)>) -> Seq<
    AnimationProperties,
>
    decreases files.len(),
{
    if files.len() == 0 {
        s
    } else {
        let next = match sheet_name(files[0].0@) {
            Some(n) => with_sheet(s, n, files[0].1),
            None => s,
        };
        attached(next, files.drop_first())
    }
}

impl Gremlin {
    /// Gives each animation the sheet file named for it; for a name found twice the
    /// later file counts. Files that are not ".png" sheets are skipped.
    pub fn attach_sheets(&mut self, files: Vec<(String, String)>)
        ensures
            final(self).name == old(self).name,
            final(self).metadata == old(self).metadata,
            final(self).animator == old(self).animator,
            final(self).animation_map@ == attached(old(self).animation_map@, files@),
    {
        let mut i: usize = 0;
        assert(files@.skip(0) =~= files@);
        while i < files.len()
            invariant
                i <= files@.len(),
                self.name == old(self).name,
                self.metadata == old(self).metadata,
                self.animator == old(self).animator,
                attached(self.animation_map@, files@.skip(i as int)) == attached(
                    old(self).animation_map@,
                    files@,
                ),
            decreases files.len() - i,
        {
            let ghost rest = files@.skip(i as int);
            assert(rest.drop_first() =~= files@.skip(i + 1));
            assert(rest[0] == files@[i as int]);
            match png_animation_name(files[i].0.as_str()) {
                Some(name) => {
                    self.set_sprite_path(&name, files[i].1.clone());
                },
                None => {},
            }
            i = i + 1;
        }
        assert(files@.skip(i as int) =~= Seq::<(String, String)>::empty());
    }
}

/// The animation a sheet file is for: a name ending in ".png", upper-cased, without
/// that ending. `None` for any other file.
pub fn png_animation_name(file_name: &str) -> (r: Option<String>)
    ensures
        r.is_some() == sheet_name(file_name@).is_some(),
        r.is_some() ==> sheet_name(file_name@) == Some(r.unwrap()@),
        !ends_with(file_name@, ".png"@) ==> r.is_none(),
        ends_with(file_name@, ".png"@) ==> match r {
            Some(s) => spec_strip_png(upper_of(file_name@)) == Some(s@),
            None => spec_strip_png(upper_of(file_name@)).is_none(),
        },
{
    let t = chars_of(file_name);
    proof {
        reveal_strlit(".png");
    }
    let n = t.len();
    if n >= 4 && t[n - 4] == '.' && t[n - 3] == 'p' && t[n - 2] == 'n' && t[n - 1] == 'g' {
        assert(t@.skip(n - 4) =~= ".png"@);
        let upper = to_uppercase(file_name);
        strip_png_suffix(&upper)
    } else {
        assert(!ends_with(t@, ".png"@)) by {
            if ends_with(t@, ".png"@) {
                assert(t@.skip(n - 4)[0] == t@[n - 4]);
                assert(t@.skip(n - 4)[1] == t@[n - 3]);
                assert(t@.skip(n - 4)[2] == t@[n - 2]);
                assert(t@.skip(n - 4)[3] == t@[n - 1]);
            }
        }
        None
    }
}

} // verus!
