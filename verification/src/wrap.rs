use vstd::prelude::*;
use crate::font::{glyph_width, measure, AsciiFont};
use crate::graphics::Sprite;
use vstd::assert_seqs_equal;

verus! {

/// Calls `String::push`, which appends `c` to `s`.
#[verifier::external_body]
pub(crate) fn push_char(s: &mut String, c: char)
    ensures
        final(s)@ == old(s)@.push(c),
{
    s.push(c);
}

/// Calls `String::pop`, which removes the last character of `s` and returns it.
#[verifier::external_body]
fn pop_char(s: &mut String) -> (r: Option<char>)
    ensures
        old(s)@.len() == 0 ==> r is None && final(s)@ == old(s)@,
        old(s)@.len() > 0 ==> r == Some(old(s)@.last()) && final(s)@ == old(s)@.drop_last(),
{
    s.pop()
}

/// Whether `c` is white space in the sense of Unicode, as `char::is_whitespace` defines it.
pub open spec fn is_white_space(c: char) -> bool {
    let v = c as u32;
    ||| 0x09 <= v <= 0x0D
    ||| v == 0x20
    ||| v == 0x85
    ||| v == 0xA0
    ||| v == 0x1680
    ||| 0x2000 <= v <= 0x200A
    ||| v == 0x2028
    ||| v == 0x2029
    ||| v == 0x202F
    ||| v == 0x205F
    ||| v == 0x3000
}

/// Whether `c` is white space (as `char::is_whitespace` decides).
pub fn white_space(c: char) -> (r: bool)
    ensures
        r == is_white_space(c),
{
    let v = c as u32;
    (0x09 <= v && v <= 0x0D) || v == 0x20 || v == 0x85 || v == 0xA0 || v == 0x1680 || (0x2000 <= v && v <= 0x200A)
        || v == 0x2028 || v == 0x2029 || v == 0x202F || v == 0x205F || v == 0x3000
}

/// The words of `s`: its maximal runs of characters that are not white space, in order.
pub open spec fn words(s: Seq<char>) -> Seq<Seq<char>>
    decreases s.len(),
{
    if s.len() == 0 {
        Seq::empty()
    } else {
        let init = words(s.drop_last());
        let c = s.last();
        if is_white_space(c) {
            init
        } else if s.len() >= 2 && !is_white_space(s[s.len() - 2]) {
            init.drop_last().push(init.last().push(c))
        } else {
            init.push(seq![c])
        }
    }
}

/// The width `string_size` gives for `s` in `font`.
pub open spec fn width_of<F: AsciiFont>(font: &F, s: Seq<char>) -> int {
    measure(|b: u8| glyph_width(font.glyph(b)), font.glyph(65).unwrap().1 as int, s).1 as u16 as i16 as int
}

/// The height `string_size` gives for `s` in `font`.
pub open spec fn height_of<F: AsciiFont>(font: &F, s: Seq<char>) -> int {
    measure(|b: u8| glyph_width(font.glyph(b)), font.glyph(65).unwrap().1 as int, s).2 as u8 as i16 as int
}

/// Whether `string_size` can measure `s` in `font`.
pub open spec fn sizable<F: AsciiFont>(font: &F, s: Seq<char>) -> bool {
    &&& font.glyph(65) is Some
    &&& measure(|b: u8| glyph_width(font.glyph(b)), font.glyph(65).unwrap().1 as int, s).1 <= u16::MAX
    &&& measure(|b: u8| glyph_width(font.glyph(b)), font.glyph(65).unwrap().1 as int, s).2 <= u8::MAX
}

/// The state of wrapping: the width of the current line, the height of the lines before it, and
/// the lines so far.
pub type WrapState = (int, int, Seq<Seq<char>>);

/// `lines` with `extra` appended to the last line.
pub open spec fn extend_last(lines: Seq<Seq<char>>, extra: Seq<char>) -> Seq<Seq<char>> {
    lines.update(lines.len() - 1, lines.last() + extra)
}

/// The lines, the height added, and the leftover after breaking the characters of a word too
/// wide for a line: each character is added to a buffer, and when the buffer becomes wider than
/// `limit`, the buffer without that character ends the line and the character starts a new one.
pub open spec fn break_word<F: AsciiFont>(font: &F, limit: int, line_height: int, word: Seq<char>, lines: Seq<Seq<char>>) -> (Seq<Seq<char>>, int, Seq<char>)
    decreases word.len(),
{
    if word.len() == 0 {
        (lines, 0, Seq::empty())
    } else {
        let (ls, added, buffer) = break_word(font, limit, line_height, word.drop_last(), lines);
        let c = word.last();
        let grown = buffer.push(c);
        if width_of(font, grown) > limit {
            (extend_last(ls, buffer).push(Seq::empty()), added + line_height, seq![c])
        } else {
            (ls, added, grown)
        }
    }
}

/// Whether breaking a word too wide for a line works without a fault: every buffer can be
/// measured, every character that starts a new line is a single byte, and the height of the
/// lines from `y` stays within `i16`.
pub open spec fn break_ok<F: AsciiFont>(font: &F, limit: int, line_height: int, word: Seq<char>, lines: Seq<Seq<char>>, y: int) -> bool
    decreases word.len(),
{
    if word.len() == 0 {
        true
    } else {
        let (ls, added, buffer) = break_word(font, limit, line_height, word.drop_last(), lines);
        let c = word.last();
        &&& break_ok(font, limit, line_height, word.drop_last(), lines, y)
        &&& sizable(font, buffer.push(c))
        &&& width_of(font, buffer.push(c)) > limit ==> (c as u32) < 128 && in_i16_range(y + added + line_height)
    }
}

/// The wrapping state after a word: a word wider than a line starts a new line and is broken
/// over as many more as it needs; a word that does not fit on the current line starts a new one;
/// either way a space follows it. Every new line adds the word's height.
pub open spec fn wrap_word<F: AsciiFont>(font: &F, limit: int, state: WrapState, word: Seq<char>) -> WrapState {
    let (x, y, lines) = state;
    let word_width = width_of(font, word);
    let word_height = height_of(font, word);
    if word_width > limit {
        let (ls, added, buffer) = break_word(font, limit, word_height, word, lines.push(Seq::empty()));
        (width_of(font, buffer), y + word_height + added, extend_last(ls, buffer.push(' ')))
    } else if x + word_width > limit {
        (word_width, y + word_height, lines.push(word.push(' ')))
    } else {
        (x + word_width, y, extend_last(lines, word.push(' ')))
    }
}

/// The wrapping state after the words `ws`.
pub open spec fn wrap_words<F: AsciiFont>(font: &F, limit: int, ws: Seq<Seq<char>>) -> WrapState
    decreases ws.len(),
{
    if ws.len() == 0 {
        (0, 0, seq![Seq::empty()])
    } else {
        wrap_word(font, limit, wrap_words(font, limit, ws.drop_last()), ws.last())
    }
}

/// Whether wrapping a word works without a fault: the word and its pieces can be measured and
/// the widths and heights stay within `i16`.
pub open spec fn wrap_word_ok<F: AsciiFont>(font: &F, limit: int, state: WrapState, word: Seq<char>) -> bool {
    let (x, y, lines) = state;
    let word_width = width_of(font, word);
    let word_height = height_of(font, word);
    &&& sizable(font, word)
    &&& if word_width > limit {
        let (ls, added, buffer) = break_word(font, limit, word_height, word, lines.push(Seq::empty()));
        &&& in_i16_range(y + word_height)
        &&& break_ok(font, limit, word_height, word, lines.push(Seq::empty()), y + word_height)
        &&& sizable(font, buffer)
    } else {
        &&& in_i16_range(x + word_width)
        &&& (x + word_width > limit ==> in_i16_range(y + word_height))
    }
}

/// Whether `v` is in the range of `i16`.
pub open spec fn in_i16_range(v: int) -> bool {
    i16::MIN <= v <= i16::MAX
}

/// Whether wrapping the words `ws` works without a fault.
pub open spec fn wrap_ok<F: AsciiFont>(font: &F, limit: int, ws: Seq<Seq<char>>) -> bool
    decreases ws.len(),
{
    if ws.len() == 0 {
        true
    } else {
        wrap_ok(font, limit, ws.drop_last()) && wrap_word_ok(font, limit, wrap_words(font, limit, ws.drop_last()), ws.last())
    }
}

/// The characters of each string of `v`.
pub open spec fn lines_view(v: Seq<String>) -> Seq<Seq<char>> {
    v.map_values(|s: String| s@)
}

/// Appends the characters of `src` to `dst`.
fn append_str(dst: &mut String, src: &String)
    ensures
        final(dst)@ == old(dst)@ + src@,
{
    let s = src.as_str();
    let n = s.unicode_len();
    let mut i: usize = 0;
    while i < n
        invariant
            n == s@.len(),
            s@ == src@,
            i <= n,
            dst@ == old(dst)@ + s@.subrange(0, i as int),
        decreases n - i,
    {
        push_char(dst, s.get_char(i));
        i = i + 1;
    }
    assert(s@.subrange(0, i as int) == s@);
}

/// Appends the characters of `extra` to the last of `lines`.
fn append_to_last(lines: &mut Vec<String>, extra: &String)
    requires
        old(lines)@.len() > 0,
    ensures
        final(lines)@.len() == old(lines)@.len(),
        lines_view(final(lines)@) == extend_last(lines_view(old(lines)@), extra@),
{
    let mut last = lines.pop().unwrap();
    append_str(&mut last, extra);
    lines.push(last);
    assert(lines_view(lines@) =~= extend_last(lines_view(old(lines)@), extra@));
}

/// Appends a space to the last of `lines`.
fn space_after_last(lines: &mut Vec<String>)
    requires
        old(lines)@.len() > 0,
    ensures
        final(lines)@.len() == old(lines)@.len(),
        lines_view(final(lines)@) == extend_last(lines_view(old(lines)@), seq![' ']),
{
    let mut last = lines.pop().unwrap();
    let ghost before = last@;
    push_char(&mut last, ' ');
    assert(last@ =~= before + seq![' ']);
    lines.push(last);
    assert(lines_view(lines@) =~= extend_last(lines_view(old(lines)@), seq![' ']));
}

/// Adds an empty line.
fn new_line(lines: &mut Vec<String>)
    ensures
        final(lines)@.len() == old(lines)@.len() + 1,
        lines_view(final(lines)@) == lines_view(old(lines)@).push(Seq::empty()),
{
    lines.push(String::new());
    assert(lines_view(lines@) =~= lines_view(old(lines)@).push(Seq::empty()));
}

/// Wraps one word onto the lines, as `wrap_word` describes.
#[verifier::rlimit(40)]
fn wrap_one_word<F: AsciiFont>(font: &F, limit: i16, x: &mut i16, y: &mut i16, lines: &mut Vec<String>, word: &String)
    requires
        old(lines)@.len() > 0,
        wrap_word_ok(font, limit as int, (*old(x) as int, *old(y) as int, lines_view(old(lines)@)), word@),
    ensures
        final(lines)@.len() > 0,
        (*final(x) as int, *final(y) as int, lines_view(final(lines)@)) == wrap_word(
            font,
            limit as int,
            (*old(x) as int, *old(y) as int, lines_view(old(lines)@)),
            word@,
        ),
{
    let (word_width, word_height) = font.string_size(word.as_str());
    if word_width > limit {
        new_line(lines);
        *y = *y + word_height;
        let ghost lines0 = lines_view(lines@);
        let ghost y0 = *y as int;
        let w = word.as_str();
        let n = w.unicode_len();
        let mut buffer = String::new();
        let mut i: usize = 0;
        while i < n
            invariant
                n == w@.len(),
                w@ == word@,
                i <= n,
                lines@.len() > 0,
                break_ok(font, limit as int, word_height as int, word@, lines0, y0),
                (lines_view(lines@), *y - y0, buffer@) == break_word(font, limit as int, word_height as int, word@.subrange(0, i as int), lines0),
            decreases n - i,
        {
            proof {
                lemma_break_ok_prefix(font, limit as int, word_height as int, word@, lines0, y0, i + 1);
                assert(word@.subrange(0, i + 1).drop_last() == word@.subrange(0, i as int));
            }
            let c = w.get_char(i);
            let ghost before = buffer@;
            push_char(&mut buffer, c);
            assert(buffer@.drop_last() =~= before);
            let (buffer_width, _) = font.string_size(buffer.as_str());
            if buffer_width > limit {
                pop_char(&mut buffer);
                assert(buffer@ == before);
                append_to_last(lines, &buffer);
                new_line(lines);
                *y = *y + word_height;
                buffer = String::new();
                push_char(&mut buffer, c);
                assert(buffer@ =~= seq![c]);
            }
            i = i + 1;
        }
        assert(word@.subrange(0, i as int) == word@);
        append_to_last(lines, &buffer);
        space_after_last(lines);
        proof {
            let (ls, added, buf) = break_word(font, limit as int, word_height as int, word@, lines0);
            assert(ls.len() > 0);
            assert(ls.last() + buf + seq![' '] =~= ls.last() + buf.push(' '));
            assert(extend_last(extend_last(ls, buf), seq![' ']) =~= extend_last(ls, buf.push(' ')));
        }
        let (buffer_width, _) = font.string_size(buffer.as_str());
        *x = buffer_width;
        return;
    }
    let ghost lines0 = lines_view(lines@);
    *x = *x + word_width;
    if *x > limit {
        new_line(lines);
        *x = word_width;
        *y = *y + word_height;
    }
    append_to_last(lines, word);
    space_after_last(lines);
    proof {
        let ls = if *old(x) as int + word_width > limit { lines0.push(Seq::empty()) } else { lines0 };
        assert(ls.len() > 0);
        assert(ls.last() + word@ + seq![' '] =~= ls.last() + word@.push(' '));
        assert(extend_last(extend_last(ls, word@), seq![' ']) =~= extend_last(ls, word@.push(' ')));
        assert(Seq::<char>::empty() + word@.push(' ') =~= word@.push(' '));
        assert(extend_last(lines0.push(Seq::empty()), word@.push(' ')) =~= lines0.push(word@.push(' ')));
    }
}

/// Breaking a word that can be broken can be broken up to any point.
proof fn lemma_break_ok_prefix<F: AsciiFont>(font: &F, limit: int, line_height: int, word: Seq<char>, lines: Seq<Seq<char>>, y: int, k: int)
    requires
        0 <= k <= word.len(),
        break_ok(font, limit, line_height, word, lines, y),
    ensures
        break_ok(font, limit, line_height, word.subrange(0, k), lines, y),
    decreases word.len() - k,
{
    if k < word.len() {
        lemma_break_ok_prefix(font, limit, line_height, word, lines, y, k + 1);
        assert(word.subrange(0, k + 1).drop_last() == word.subrange(0, k));
    } else {
        assert(word.subrange(0, k) == word);
    }
}

/// The words of a text whose last character is not white space are not empty.
proof fn lemma_words_nonempty(s: Seq<char>)
    requires
        s.len() > 0,
        !is_white_space(s.last()),
    ensures
        words(s).len() > 0,
    decreases s.len(),
{
    if s.len() >= 2 && !is_white_space(s[s.len() - 2]) {
        assert(s.drop_last().last() == s[s.len() - 2]);
        lemma_words_nonempty(s.drop_last());
    }
}

/// Splitting a text at white space splits its words: the words before position `i`, where
/// there is white space, followed by the words from `i` up to `j`.
proof fn lemma_words_split(s: Seq<char>, i: int, j: int)
    requires
        0 <= i < j <= s.len(),
        is_white_space(s[i]),
    ensures
        words(s.subrange(0, j)) == words(s.subrange(0, i)) + words(s.subrange(i, j)),
    decreases j - i,
{
    let a = words(s.subrange(0, i));
    assert(s.subrange(0, j).drop_last() == s.subrange(0, j - 1));
    assert(s.subrange(i, j).drop_last() == s.subrange(i, j - 1));
    if j == i + 1 {
        assert(s.subrange(i, j).drop_last() =~= Seq::<char>::empty());
        assert(s.subrange(i, j).last() == s[i]);
        assert(words(Seq::<char>::empty()) == Seq::<Seq<char>>::empty());
        assert(words(s.subrange(i, j)) == Seq::<Seq<char>>::empty());
        assert(a + Seq::<Seq<char>>::empty() =~= a);
    } else {
        lemma_words_split(s, i, j - 1);
        let b = words(s.subrange(i, j - 1));
        let c = s[j - 1];
        assert(s.subrange(0, j).last() == c);
        assert(s.subrange(i, j).last() == c);
        assert(s.subrange(0, j)[j - 2] == s[j - 2]);
        assert(s.subrange(i, j)[j - i - 2] == s[j - 2]);
        if is_white_space(c) {
        } else if !is_white_space(s[j - 2]) {
            assert(s.subrange(i, j - 1).last() == s[j - 2]);
            lemma_words_nonempty(s.subrange(i, j - 1));
            assert((a + b).drop_last() =~= a + b.drop_last());
            assert((a + b).last() == b.last());
            assert((a + b).drop_last().push((a + b).last().push(c)) =~= a + b.drop_last().push(b.last().push(c)));
        } else {
            assert((a + b).push(seq![c]) =~= a + b.push(seq![c]));
        }
    }
}

/// Wrapping words that can be wrapped can be done up to any point.
proof fn lemma_wrap_ok_prefix<F: AsciiFont>(font: &F, limit: int, ws: Seq<Seq<char>>, k: int)
    requires
        0 <= k <= ws.len(),
        wrap_ok(font, limit, ws),
    ensures
        wrap_ok(font, limit, ws.subrange(0, k)),
    decreases ws.len() - k,
{
    if k < ws.len() {
        lemma_wrap_ok_prefix(font, limit, ws, k + 1);
        assert(ws.subrange(0, k + 1).drop_last() == ws.subrange(0, k));
    } else {
        assert(ws.subrange(0, k) == ws);
    }
}

impl Sprite {
    /// Breaks `string` into lines no wider than `width` at its white space; a word wider than a
    /// line gets lines of its own, broken between characters. Each word in a line is followed by
    /// a space. Gives the lines, the height of a line, and the height of all of them: the height of
    /// a line times their number.
    pub fn wrap_text<F: AsciiFont>(&mut self, font: &F, string: &str, width: u16) -> (r: (Vec<String>, i16, i16))
        requires
            font.glyph(65) is Some,
            wrap_ok(font, width as i16 as int, words(string@)),
            in_i16_range(wrap_words(font, width as i16 as int, words(string@)).1 + font.glyph(65).unwrap().1),
        ensures
            *final(self) == *old(self),
            lines_view(r.0@) == wrap_words(font, width as i16 as int, words(string@)).2,
            r.1 == font.glyph(65).unwrap().1,
            r.2 == wrap_words(font, width as i16 as int, words(string@)).1 + font.glyph(65).unwrap().1,
            r.2 == r.1 * r.0@.len(),
    {
        let limit = #[verifier::truncate] (width as i16);
        let char_height = match font.char_data(65) {
            Some(g) => g.height,
            None => {
                return vstd::pervasive::unreached();
            },
        };
        let ghost full = words(string@);
        let ghost mut done: Seq<Seq<char>> = Seq::empty();
        let mut x: i16 = 0;
        let mut y: i16 = 0;
        let mut lines: Vec<String> = Vec::new();
        lines.push(String::new());
        assert(lines_view(lines@) =~= seq![Seq::<char>::empty()]);
        let mut word = String::new();
        let n = string.unicode_len();
        let mut i: usize = 0;
        while i < n
            invariant
                n == string@.len(),
                i <= n,
                limit == width as i16,
                full == words(string@),
                wrap_ok(font, limit as int, full),
                words(string@.subrange(0, i as int)) == if word@.len() == 0 { done } else { done.push(word@) },
                word@.len() > 0 ==> i > 0 && !is_white_space(string@[i - 1]),
                word@.len() == 0 ==> i == 0 || is_white_space(string@[i - 1]),
                lines@.len() > 0,
                (x as int, y as int, lines_view(lines@)) == wrap_words(font, limit as int, done),
                done.len() <= full.len(),
                full.subrange(0, done.len() as int) == done,
            decreases n - i,
        {
            let c = string.get_char(i);
            proof {
                assert(string@.subrange(0, i + 1).drop_last() == string@.subrange(0, i as int));
                assert(string@.subrange(0, i + 1).last() == c);
                if i > 0 {
                    assert(string@.subrange(0, i + 1)[i - 1] == string@[i - 1]);
                }
            }
            if white_space(c) {
                if word.as_str().unicode_len() > 0 {
                    proof {
                        lemma_words_split(string@, i as int, n as int);
                        assert(string@.subrange(0, n as int) == string@);
                        assert(full == done.push(word@) + words(string@.subrange(i as int, n as int)));
                        assert(full.subrange(0, done.len() + 1int) =~= done.push(word@));
                        lemma_wrap_ok_prefix(font, limit as int, full, done.len() + 1int);
                        assert(done.push(word@).drop_last() == done);
                    }
                    wrap_one_word(font, limit, &mut x, &mut y, &mut lines, &word);
                    proof {
                        done = done.push(word@);
                    }
                    word = String::new();
                }
            } else {
                let ghost before = word@;
                push_char(&mut word, c);
                proof {
                    if before.len() == 0 {
                        assert(word@ =~= seq![c]);
                    } else {
                        assert(done.push(before).drop_last() == done);
                        assert(done.push(before).last() == before);
                    }
                }
            }
            i = i + 1;
        }
        assert(string@.subrange(0, n as int) == string@);
        if word.as_str().unicode_len() > 0 {
            proof {
                assert(full == done.push(word@));
                lemma_wrap_ok_prefix(font, limit as int, full, done.len() + 1int);
                assert(full.subrange(0, done.len() + 1int) == full);
                assert(done.push(word@).drop_last() == done);
            }
            wrap_one_word(font, limit, &mut x, &mut y, &mut lines, &word);
            proof {
                done = done.push(word@);
            }
        }
        assert(done == full);
        proof {
            lemma_words_one_line(font, string@);
            lemma_wrap_height(font, limit as int, char_height as int, full);
            assert(lines_view(lines@).len() == lines@.len());
            assert(char_height * (lines@.len() - 1) + char_height == char_height * lines@.len()) by (nonlinear_arith);
        }
        (lines, char_height as i16, y + char_height as i16)
    }
}

proof fn lemma_break_word_len<F: AsciiFont>(font: &F, limit: int, line_height: int, word: Seq<char>, lines: Seq<Seq<char>>)
    requires
        lines.len() >= 1,
    ensures
        break_word(font, limit, line_height, word, lines).0.len() >= lines.len(),
    decreases word.len(),
{
    if word.len() > 0 {
        lemma_break_word_len(font, limit, line_height, word.drop_last(), lines);
    }
}

/// Wrapping gives at least one line, the first one even when the text has no words.
pub proof fn lemma_wrapped_lines_nonempty<F: AsciiFont>(font: &F, limit: int, ws: Seq<Seq<char>>)
    ensures
        wrap_words(font, limit, ws).2.len() >= 1,
    decreases ws.len(),
{
    if ws.len() > 0 {
        lemma_wrapped_lines_nonempty(font, limit, ws.drop_last());
        let (x, y, lines) = wrap_words(font, limit, ws.drop_last());
        let word = ws.last();
        if width_of(font, word) > limit {
            lemma_break_word_len(font, limit, height_of(font, word), word, lines.push(Seq::empty()));
        }
    }
}


/// A text without a newline is one line high.
proof fn lemma_measure_one_line(widths: spec_fn(u8) -> Option<int>, line_height: int, s: Seq<char>)
    requires
        forall|i: int| 0 <= i < s.len() ==> s[i] != '\n',
    ensures
        measure(widths, line_height, s).2 == line_height,
    decreases s.len(),
{
    if s.len() > 0 {
        assert forall|i: int| 0 <= i < s.drop_last().len() implies s.drop_last()[i] != '\n' by {
            assert(s.drop_last()[i] == s[i]);
        }
        lemma_measure_one_line(widths, line_height, s.drop_last());
        assert(s.last() == s[s.len() - 1]);
    }
}

/// No word holds white space.
proof fn lemma_words_no_white_space(s: Seq<char>)
    ensures
        forall|k: int, i: int| 0 <= k < words(s).len() && 0 <= i < words(s)[k].len() ==> !is_white_space(#[trigger] words(s)[k][i]),
    decreases s.len(),
{
    if s.len() > 0 {
        lemma_words_no_white_space(s.drop_last());
        let init = words(s.drop_last());
        let c = s.last();
        if is_white_space(c) {
        } else if s.len() >= 2 && !is_white_space(s[s.len() - 2]) {
            assert(s.drop_last().last() == s[s.len() - 2]);
            lemma_words_nonempty(s.drop_last());
            let w = init.last().push(c);
            assert forall|k: int, i: int| 0 <= k < words(s).len() && 0 <= i < words(s)[k].len() implies !is_white_space(#[trigger] words(s)[k][i]) by {
                if k < init.len() - 1 {
                    assert(words(s)[k] == init[k]);
                } else {
                    assert(words(s)[k] == w);
                    if i < init.last().len() {
                        assert(w[i] == init[init.len() - 1][i]);
                    }
                }
            }
        } else {
            assert forall|k: int, i: int| 0 <= k < words(s).len() && 0 <= i < words(s)[k].len() implies !is_white_space(#[trigger] words(s)[k][i]) by {
                if k < init.len() {
                    assert(words(s)[k] == init[k]);
                }
            }
        }
    }
}

/// Breaking a word adds one line height for every line it adds.
proof fn lemma_break_word_height<F: AsciiFont>(font: &F, limit: int, line_height: int, word: Seq<char>, lines: Seq<Seq<char>>)
    requires
        lines.len() >= 1,
    ensures
        break_word(font, limit, line_height, word, lines).1 == line_height * (break_word(font, limit, line_height, word, lines).0.len() - lines.len()),
    decreases word.len(),
{
    if word.len() > 0 {
        lemma_break_word_height(font, limit, line_height, word.drop_last(), lines);
        lemma_break_word_len(font, limit, line_height, word.drop_last(), lines);
        let (ls, added, buffer) = break_word(font, limit, line_height, word.drop_last(), lines);
        let r = break_word(font, limit, line_height, word, lines);
        let c = word.last();
        if width_of(font, buffer.push(c)) > limit {
            assert(extend_last(ls, buffer).len() == ls.len());
            assert(r.0 == extend_last(ls, buffer).push(Seq::empty()));
            assert(r.1 == added + line_height);
            let m = ls.len() - lines.len();
            assert(line_height * (m + 1) == line_height * m + line_height) by (nonlinear_arith);
            assert(r.0.len() - lines.len() == m + 1);
            assert(r.1 == line_height * (r.0.len() - lines.len()));
        } else {
            assert(r.0 == ls && r.1 == added);
        }
    } else {
        let m = lines.len() - lines.len();
        assert(m == 0);
        assert(line_height * m == 0) by (nonlinear_arith) requires m == 0;
    }
}

/// Wrapping words, each one line of `line_height` high, makes the height of the lines before the
/// last one line height for each.
proof fn lemma_wrap_height<F: AsciiFont>(font: &F, limit: int, line_height: int, ws: Seq<Seq<char>>)
    requires
        forall|k: int| 0 <= k < ws.len() ==> height_of(font, #[trigger] ws[k]) == line_height,
    ensures
        wrap_words(font, limit, ws).1 == line_height * (wrap_words(font, limit, ws).2.len() - 1),
    decreases ws.len(),
{
    if ws.len() > 0 {
        assert forall|k: int| 0 <= k < ws.drop_last().len() implies height_of(font, #[trigger] ws.drop_last()[k]) == line_height by {
            assert(ws.drop_last()[k] == ws[k]);
        }
        lemma_wrap_height(font, limit, line_height, ws.drop_last());
        let (x, y, lines) = wrap_words(font, limit, ws.drop_last());
        let word = ws.last();
        assert(height_of(font, word) == line_height);
        lemma_wrapped_lines_nonempty(font, limit, ws.drop_last());
        if width_of(font, word) > limit {
            lemma_break_word_height(font, limit, line_height, word, lines.push(Seq::empty()));
            lemma_break_word_len(font, limit, line_height, word, lines.push(Seq::empty()));
            let (ls, added, buffer) = break_word(font, limit, line_height, word, lines.push(Seq::empty()));
            assert(extend_last(ls, buffer.push(' ')).len() == ls.len());
            let r = wrap_words(font, limit, ws);
            assert(r == (width_of(font, buffer), y + line_height + added, extend_last(ls, buffer.push(' '))));
            let a = lines.len() - 1;
            let b = ls.len() - (lines.len() + 1);
            assert(line_height * a + line_height + line_height * b == line_height * (a + 1 + b)) by (nonlinear_arith);
            assert(a + 1 + b == r.2.len() - 1);
        } else if x + width_of(font, word) > limit {
            let r = wrap_words(font, limit, ws);
            assert(r == (width_of(font, word), y + line_height, lines.push(word.push(' '))));
            let a = lines.len() - 1;
            assert(line_height * a + line_height == line_height * (a + 1)) by (nonlinear_arith);
            assert(a + 1 == r.2.len() - 1);
        } else {
            assert(extend_last(lines, word.push(' ')).len() == lines.len());
        }
    } else {
        let r = wrap_words(font, limit, ws);
        assert(r.2.len() - 1 == 0);
        let m = r.2.len() - 1;
        assert(line_height * m == 0) by (nonlinear_arith) requires m == 0;
    }
}

/// Every word of `s` is one line high in `font`.
proof fn lemma_words_one_line<F: AsciiFont>(font: &F, s: Seq<char>)
    requires
        font.glyph(65) is Some,
    ensures
        forall|k: int| 0 <= k < words(s).len() ==> height_of(font, #[trigger] words(s)[k]) == font.glyph(65).unwrap().1,
{
    lemma_words_no_white_space(s);
    assert forall|k: int| 0 <= k < words(s).len() implies height_of(font, #[trigger] words(s)[k]) == font.glyph(65).unwrap().1 by {
        let w = words(s)[k];
        assert forall|i: int| 0 <= i < w.len() implies w[i] != '\n' by {
            assert(!is_white_space(words(s)[k][i]));
        }
        lemma_measure_one_line(|b: u8| glyph_width(font.glyph(b)), font.glyph(65).unwrap().1 as int, w);
    }
}

} // verus!
