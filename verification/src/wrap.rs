//! Greedy line wrapping of print text by measured pixel width.
//!
//! Wrapping reads the text one character at a time. A newline ends the current line. Any other
//! character is measured together with the current line; if that width exceeds the limit, the
//! current line ends and the character starts the next one, otherwise the character joins the
//! current line. The measurer is supplied by the caller, so the contracts below describe the
//! lines in terms of the widths it answered, in the order they were asked for.
use vstd::prelude::*;

use core::convert::Infallible;

use crate::domain::{printable_width, DomainError, DomainErrorView, TextImageLayout};
use crate::text::{chars_of, string_from_chars};

verus! {

/// Measures the rendered pixel width of a line of text.
pub trait TextWidthMeasurer {
    fn measure_text_width_px(&self, text: &str) -> u32;
}

/// Measures the rendered pixel width of a line of text, where measuring may fail.
pub trait FallibleTextWidthMeasurer {
    type Error;

    fn try_measure_text_width_px(&self, text: &str) -> Result<u32, Self::Error>;
}

impl<M: TextWidthMeasurer> FallibleTextWidthMeasurer for M {
    type Error = Infallible;

    /// Never fails: the width is what `measure_text_width_px` answers.
    fn try_measure_text_width_px(&self, text: &str) -> (r: Result<u32, Infallible>)
        ensures
            r is Ok,
    {
        Ok(self.measure_text_width_px(text))
    }
}

/// Why wrapping for a layout failed: the layout itself, or a measurement.
#[derive(Debug, Clone, PartialEq, Eq)]
pub enum TextWrapError<E> {
    Layout(DomainError),
    Measure(E),
}

/// The number of newlines in `text`.
pub open spec fn newline_count(text: Seq<char>) -> nat
    decreases text.len(),
{
    if text.len() == 0 {
        0
    } else if text.last() == '\n' {
        newline_count(text.drop_last()) + 1
    } else {
        newline_count(text.drop_last())
    }
}

/// The number of measurements wrapping `text` takes: one per character other than a newline.
pub open spec fn measured_count(text: Seq<char>) -> nat
    decreases text.len(),
{
    if text.len() == 0 {
        0
    } else if text.last() == '\n' {
        measured_count(text.drop_last())
    } else {
        measured_count(text.drop_last()) + 1
    }
}

/// The lines completed and the line being built after reading `text`, where `widths` are the
/// answers of the measurer, in order: the `k`-th character other than a newline is measured
/// together with the line being built and takes `widths[k]`; a width above `max_width_px`
/// moves the character to a new line, a width equal to it keeps the character.
pub open spec fn wrap_trace(text: Seq<char>, max_width_px: u32, widths: Seq<u32>) -> (
    Seq<Seq<char>>,
    Seq<char>,
)
    decreases text.len(),
{
    if text.len() == 0 {
        (Seq::empty(), Seq::empty())
    } else {
        let (lines, current) = wrap_trace(text.drop_last(), max_width_px, widths);
        let c = text.last();
        if c == '\n' {
            (lines.push(current), Seq::empty())
        } else if widths[measured_count(text.drop_last()) as int] > max_width_px {
            (lines.push(current), seq![c])
        } else {
            (lines, current.push(c))
        }
    }
}

/// The wrapped lines of `text` for the measured `widths`.
pub open spec fn traced_lines(text: Seq<char>, max_width_px: u32, widths: Seq<u32>) -> Seq<
    Seq<char>,
> {
    let (lines, current) = wrap_trace(text, max_width_px, widths);
    lines.push(current)
}

/// The texts handed to the measurer while wrapping `text`, in order: the line being built with
/// each character other than a newline.
pub open spec fn measured_texts(text: Seq<char>, max_width_px: u32, widths: Seq<u32>) -> Seq<
    Seq<char>,
>
    decreases text.len(),
{
    if text.len() == 0 {
        Seq::empty()
    } else {
        let before = measured_texts(text.drop_last(), max_width_px, widths);
        if text.last() == '\n' {
            before
        } else {
            before.push(wrap_trace(text.drop_last(), max_width_px, widths).1.push(text.last()))
        }
    }
}

/// Whether `widths` are what a measurer answered for wrapping `text` (one answer per
/// measurement) and `lines` are the lines that come of them.
pub open spec fn wraps_with_widths(
    text: Seq<char>,
    max_width_px: u32,
    widths: Seq<u32>,
    lines: Seq<Seq<char>>,
) -> bool {
    widths.len() == measured_count(text) && lines == traced_lines(text, max_width_px, widths)
}

/// Whether `measurer` may answer `width` when asked to measure a text of the characters `text`:
/// an answer its `measure_text_width_px` can give.
pub open spec fn measures_as<M: TextWidthMeasurer>(measurer: &M, text: Seq<char>, width: u32) -> bool {
    exists|s: &str|
        s@ == text && #[trigger] call_ensures(M::measure_text_width_px, (measurer, s), width)
}

/// Whether `widths` are answers of `measurer`, in order, for the texts that wrapping `text` to
/// `max_width_px` with these widths measures.
pub open spec fn answered_by<M: TextWidthMeasurer>(
    measurer: &M,
    text: Seq<char>,
    max_width_px: u32,
    widths: Seq<u32>,
) -> bool {
    forall|k: int|
        0 <= k < widths.len() ==> measures_as(
            measurer,
            #[trigger] measured_texts(text, max_width_px, widths)[k],
            widths[k],
        )
}

/// Whether measuring a text of the characters `text` with `measurer` may answer `r`.
pub open spec fn try_measures_as<M: FallibleTextWidthMeasurer>(
    measurer: &M,
    text: Seq<char>,
    r: Result<u32, M::Error>,
) -> bool {
    exists|s: &str|
        s@ == text && #[trigger] call_ensures(M::try_measure_text_width_px, (measurer, s), r)
}

/// Whether `widths` are successful answers of `measurer`, in order, for the texts that wrapping
/// `text` to `max_width_px` with these widths measures.
pub open spec fn answered_ok_by<M: FallibleTextWidthMeasurer>(
    measurer: &M,
    text: Seq<char>,
    max_width_px: u32,
    widths: Seq<u32>,
) -> bool {
    forall|k: int|
        0 <= k < widths.len() ==> try_measures_as(
            measurer,
            #[trigger] measured_texts(text, max_width_px, widths)[k],
            Ok::<u32, M::Error>(widths[k]),
        )
}

/// Whether wrapping `text` to `max_width_px` with `measurer` stops at the error `e`: the
/// measurements for the text before some character other than a newline succeeded, and
/// measuring the line being built with that character answered `e`.
pub open spec fn fails_with<M: FallibleTextWidthMeasurer>(
    measurer: &M,
    text: Seq<char>,
    max_width_px: u32,
    e: M::Error,
) -> bool {
    exists|p: int, widths: Seq<u32>|
        0 <= p < text.len() && text[p] != '\n' && widths.len() == measured_count(text.take(p))
            && #[trigger] answered_ok_by(measurer, text.take(p), max_width_px, widths)
            && try_measures_as(
            measurer,
            wrap_trace(text.take(p), max_width_px, widths).1.push(text[p]),
            Err::<u32, M::Error>(e),
        )
}

/// The safe width of a layout that passed its checks.
pub open spec fn layout_safe_width(layout: &TextImageLayout) -> u32 {
    printable_width(layout.paper_width_px, layout.margin_px).unwrap()
}

/// The texts of a sequence of strings.
pub open spec fn string_views(v: Seq<String>) -> Seq<Seq<char>> {
    v.map_values(|s: String| s@)
}

/// The lines joined with nothing between them.
pub open spec fn joined(lines: Seq<Seq<char>>) -> Seq<char>
    decreases lines.len(),
{
    if lines.len() == 0 {
        Seq::empty()
    } else {
        joined(lines.drop_last()) + lines.last()
    }
}

/// `text` without its newlines.
pub open spec fn without_newlines(text: Seq<char>) -> Seq<char>
    decreases text.len(),
{
    if text.len() == 0 {
        Seq::empty()
    } else if text.last() == '\n' {
        without_newlines(text.drop_last())
    } else {
        without_newlines(text.drop_last()).push(text.last())
    }
}

/// The trace of a text reads no width past its own measurements.
proof fn lemma_trace_uses_own_widths(text: Seq<char>, max_width_px: u32, a: Seq<u32>, b: Seq<u32>)
    requires
        a.len() >= measured_count(text),
        b.len() >= measured_count(text),
        forall|k: int| 0 <= k < measured_count(text) ==> a[k] == b[k],
    ensures
        wrap_trace(text, max_width_px, a) == wrap_trace(text, max_width_px, b),
    decreases text.len(),
{
    if text.len() > 0 {
        lemma_trace_uses_own_widths(text.drop_last(), max_width_px, a, b);
    }
}

/// The texts measured for a text depend on no width past its own measurements.
proof fn lemma_measured_texts_use_own_widths(
    text: Seq<char>,
    max_width_px: u32,
    a: Seq<u32>,
    b: Seq<u32>,
)
    requires
        a.len() >= measured_count(text),
        b.len() >= measured_count(text),
        forall|k: int| 0 <= k < measured_count(text) ==> a[k] == b[k],
    ensures
        measured_texts(text, max_width_px, a) == measured_texts(text, max_width_px, b),
    decreases text.len(),
{
    if text.len() > 0 {
        lemma_measured_texts_use_own_widths(text.drop_last(), max_width_px, a, b);
        lemma_trace_uses_own_widths(text.drop_last(), max_width_px, a, b);
    }
}

/// One more character read: the trace of the longer prefix follows from that of the shorter.
proof fn lemma_trace_step(text: Seq<char>, i: int, max_width_px: u32, widths: Seq<u32>)
    requires
        0 <= i < text.len(),
    ensures
        text.take(i + 1).drop_last() == text.take(i),
        text.take(i + 1).last() == text[i],
        measured_count(text.take(i + 1)) == measured_count(text.take(i)) + if text[i] == '\n' {
            0nat
        } else {
            1nat
        },
{
    assert(text.take(i + 1).drop_last() == text.take(i));
}

/// The lines for measured `widths`: what a measurer that answered `widths`, in order, gives.
pub fn wrap_text_with_widths(text: &str, max_width_px: u32, widths: &Vec<u32>) -> (lines: Vec<
    String,
>)
    requires
        widths@.len() >= measured_count(text@),
    ensures
        string_views(lines@) == traced_lines(text@, max_width_px, widths@),
{
    let chars = chars_of(text);
    let mut lines: Vec<String> = Vec::new();
    let mut current: Vec<char> = Vec::new();
    let mut i: usize = 0;
    let mut k: usize = 0;
    assert(chars@.take(0) == Seq::<char>::empty());
    while i < chars.len()
        invariant
            i <= chars.len(),
            chars@ == text@,
            widths@.len() >= measured_count(text@),
            k == measured_count(chars@.take(i as int)),
            (string_views(lines@), current@) == wrap_trace(
                chars@.take(i as int),
                max_width_px,
                widths@,
            ),
        decreases chars.len() - i,
    {
        proof {
            lemma_trace_step(chars@, i as int, max_width_px, widths@);
            lemma_measured_count_prefix(chars@, i as int + 1);
        }
        assert(widths@.len() == widths.len());
        let c = chars[i];
        if c == '\n' {
            lines.push(string_from_chars(current.as_slice()));
            current = Vec::new();
        } else {
            if widths[k] > max_width_px {
                lines.push(string_from_chars(current.as_slice()));
                current = Vec::new();
                current.push(c);
                assert(current@ == seq![c]);
            } else {
                current.push(c);
            }
            k += 1;
        }
        i += 1;
    }
    lines.push(string_from_chars(current.as_slice()));
    assert(chars@.take(chars.len() as int) == chars@);
    lines
}

/// One more character read: what was measured so far stays, and a character other than a newline
/// adds the line being built with it.
proof fn lemma_measured_texts_step(text: Seq<char>, i: int, max_width_px: u32, before: Seq<u32>, w: u32)
    requires
        0 <= i < text.len(),
        before.len() == measured_count(text.take(i)),
    ensures
        measured_texts(text.take(i), max_width_px, before).len() == before.len(),
        text[i] == '\n' ==> measured_texts(text.take(i + 1), max_width_px, before) == measured_texts(
            text.take(i),
            max_width_px,
            before,
        ),
        text[i] != '\n' ==> measured_texts(text.take(i + 1), max_width_px, before.push(w))
            == measured_texts(text.take(i), max_width_px, before).push(
            wrap_trace(text.take(i), max_width_px, before).1.push(text[i]),
        ),
{
    lemma_trace_step(text, i, max_width_px, before);
    lemma_measured_texts_len(text.take(i), max_width_px, before);
    lemma_measured_texts_use_own_widths(text.take(i), max_width_px, before, before.push(w));
    lemma_trace_uses_own_widths(text.take(i), max_width_px, before, before.push(w));
}

/// A prefix takes no more measurements than the whole text.
proof fn lemma_measured_count_prefix(text: Seq<char>, i: int)
    requires
        0 <= i <= text.len(),
    ensures
        measured_count(text.take(i)) <= measured_count(text),
    decreases text.len() - i,
{
    if i < text.len() {
        lemma_trace_step(text, i, 0, Seq::empty());
        lemma_measured_count_prefix(text, i + 1);
    } else {
        assert(text.take(i) == text);
    }
}

/// Wraps every `\n`-separated paragraph of `text` to `max_width_px` with `measurer`: the lines
/// are those that come of the widths it answered, and empty paragraphs stay as empty lines.
pub fn wrap_text_to_width<M: TextWidthMeasurer>(
    text: &str,
    max_width_px: u32,
    measurer: &M,
) -> (lines: Vec<String>)
    ensures
        exists|widths: Seq<u32>|
            wraps_with_widths(text@, max_width_px, widths, string_views(lines@)) && answered_by(
                measurer,
                text@,
                max_width_px,
                widths,
            ),
{
    let chars = chars_of(text);
    let ghost mut widths: Seq<u32> = Seq::empty();
    let mut lines: Vec<String> = Vec::new();
    let mut current: Vec<char> = Vec::new();
    let mut i: usize = 0;
    assert(chars@.take(0) == Seq::<char>::empty());
    while i < chars.len()
        invariant
            i <= chars.len(),
            chars@ == text@,
            widths.len() == measured_count(chars@.take(i as int)),
            (string_views(lines@), current@) == wrap_trace(
                chars@.take(i as int),
                max_width_px,
                widths,
            ),
            answered_by(measurer, chars@.take(i as int), max_width_px, widths),
        decreases chars.len() - i,
    {
        proof {
            lemma_trace_step(chars@, i as int, max_width_px, widths);
        }
        let c = chars[i];
        if c == '\n' {
            proof {
                lemma_measured_texts_step(chars@, i as int, max_width_px, widths, 0);
            }
            lines.push(string_from_chars(current.as_slice()));
            current = Vec::new();
        } else {
            let ghost before = widths;
            let ghost previous = current@;
            current.push(c);
            let candidate = string_from_chars(current.as_slice());
            let w = measurer.measure_text_width_px(candidate.as_str());
            proof {
                widths = widths.push(w);
                lemma_trace_uses_own_widths(chars@.take(i as int), max_width_px, before, widths);
                lemma_measured_texts_step(chars@, i as int, max_width_px, before, w);
                let texts = measured_texts(chars@.take(i as int + 1), max_width_px, widths);
                let old_texts = measured_texts(chars@.take(i as int), max_width_px, before);
                assert(measures_as(measurer, candidate@, w));
                assert forall|k: int| 0 <= k < widths.len() implies measures_as(
                    measurer,
                    #[trigger] measured_texts(chars@.take(i as int + 1), max_width_px, widths)[k],
                    widths[k],
                ) by {
                    if k < before.len() {
                        assert(texts[k] == old_texts[k]);
                        assert(widths[k] == before[k]);
                    } else {
                        assert(texts[k] == candidate@);
                    }
                }
            }
            if w > max_width_px {
                current.pop();
                assert(current@ == previous);
                lines.push(string_from_chars(current.as_slice()));
                current = Vec::new();
                current.push(c);
                assert(current@ == seq![c]);
            }
        }
        i += 1;
    }
    let ghost done = string_views(lines@);
    lines.push(string_from_chars(current.as_slice()));
    assert(string_views(lines@) == done.push(current@));
    assert(chars@.take(chars.len() as int) == chars@);
    assert(wraps_with_widths(text@, max_width_px, widths, string_views(lines@)));
    lines
}

/// As `wrap_text_to_width`, stopping at the first failed measurement and returning its error.
pub fn try_wrap_text_to_width<M: FallibleTextWidthMeasurer>(
    text: &str,
    max_width_px: u32,
    measurer: &M,
) -> (r: Result<Vec<String>, M::Error>)
    ensures
        r matches Ok(lines) ==> exists|widths: Seq<u32>|
            #[trigger] wraps_with_widths(text@, max_width_px, widths, string_views(lines@))
                && answered_ok_by(measurer, text@, max_width_px, widths),
        r matches Err(e) ==> fails_with(measurer, text@, max_width_px, e),
        measured_count(text@) == 0 ==> (r matches Ok(lines) && wraps_with_widths(
            text@,
            max_width_px,
            Seq::empty(),
            string_views(lines@),
        )),
        r is Err ==> measured_count(text@) > 0,
{
    let chars = chars_of(text);
    let ghost mut widths: Seq<u32> = Seq::empty();
    let mut lines: Vec<String> = Vec::new();
    let mut current: Vec<char> = Vec::new();
    let mut i: usize = 0;
    assert(chars@.take(0) == Seq::<char>::empty());
    while i < chars.len()
        invariant
            i <= chars.len(),
            chars@ == text@,
            widths.len() == measured_count(chars@.take(i as int)),
            (string_views(lines@), current@) == wrap_trace(
                chars@.take(i as int),
                max_width_px,
                widths,
            ),
            answered_ok_by(measurer, chars@.take(i as int), max_width_px, widths),
        decreases chars.len() - i,
    {
        proof {
            lemma_trace_step(chars@, i as int, max_width_px, widths);
        }
        let c = chars[i];
        if c == '\n' {
            proof {
                lemma_measured_texts_step(chars@, i as int, max_width_px, widths, 0);
            }
            lines.push(string_from_chars(current.as_slice()));
            current = Vec::new();
        } else {
            let ghost before = widths;
            let ghost previous = current@;
            current.push(c);
            let candidate = string_from_chars(current.as_slice());
            let measured = measurer.try_measure_text_width_px(candidate.as_str());
            let w = match measured {
                Ok(w) => w,
                Err(e) => {
                    proof {
                        lemma_measured_count_prefix(chars@, i + 1);
                        assert(try_measures_as(measurer, candidate@, measured));
                        assert(chars@[i as int] == c);
                        assert(fails_with(measurer, chars@, max_width_px, e));
                    }
                    return Err(e);
                },
            };
            proof {
                widths = widths.push(w);
                lemma_trace_uses_own_widths(chars@.take(i as int), max_width_px, before, widths);
                lemma_measured_texts_step(chars@, i as int, max_width_px, before, w);
                let texts = measured_texts(chars@.take(i as int + 1), max_width_px, widths);
                let old_texts = measured_texts(chars@.take(i as int), max_width_px, before);
                assert(try_measures_as(measurer, candidate@, Ok::<u32, M::Error>(w)));
                assert forall|k: int| 0 <= k < widths.len() implies try_measures_as(
                    measurer,
                    #[trigger] measured_texts(chars@.take(i as int + 1), max_width_px, widths)[k],
                    Ok::<u32, M::Error>(widths[k]),
                ) by {
                    if k < before.len() {
                        assert(texts[k] == old_texts[k]);
                        assert(widths[k] == before[k]);
                    } else {
                        assert(texts[k] == candidate@);
                    }
                }
            }
            if w > max_width_px {
                current.pop();
                assert(current@ == previous);
                lines.push(string_from_chars(current.as_slice()));
                current = Vec::new();
                current.push(c);
                assert(current@ == seq![c]);
            }
        }
        i += 1;
    }
    let ghost done = string_views(lines@);
    lines.push(string_from_chars(current.as_slice()));
    assert(string_views(lines@) == done.push(current@));
    assert(chars@.take(chars.len() as int) == chars@);
    assert(wraps_with_widths(text@, max_width_px, widths, string_views(lines@)));
    assert(measured_count(text@) == 0 ==> widths == Seq::<u32>::empty());
    let r = Ok(lines);
    assert(r matches Ok(l) && wraps_with_widths(text@, max_width_px, widths, string_views(l@)));
    r
}

/// Validates `layout`, then wraps `text` to its safe width (paper width minus both margins).
pub fn wrap_text_for_layout<M: TextWidthMeasurer>(
    text: &str,
    layout: &TextImageLayout,
    measurer: &M,
) -> (r: Result<Vec<String>, DomainError>)
    ensures
        match r {
            Ok(lines) => layout.spec_check() is Ok && exists|widths: Seq<u32>|
                #[trigger] wraps_with_widths(
                    text@,
                    layout_safe_width(layout),
                    widths,
                    string_views(lines@),
                ) && answered_by(measurer, text@, layout_safe_width(layout), widths),
            Err(e) => layout.spec_check() == Err::<(), DomainErrorView>(e@),
        },
{
    layout.validate()?;
    let safe_width_px = match layout.safe_width_px() {
        Some(width_px) => width_px,
        None => {
            return Err(
                DomainError::PrintableWidthTooSmall {
                    paper_width_px: layout.paper_width_px,
                    margin_px: layout.margin_px,
                },
            );
        },
    };
    let lines = wrap_text_to_width(text, safe_width_px, measurer);
    proof {
        let widths = choose|widths: Seq<u32>|
            wraps_with_widths(text@, safe_width_px, widths, string_views(lines@)) && answered_by(
                measurer,
                text@,
                safe_width_px,
                widths,
            );
        assert(wraps_with_widths(text@, layout_safe_width(layout), widths, string_views(lines@)));
        assert(answered_by(measurer, text@, layout_safe_width(layout), widths));
    }
    let r = Ok(lines);
    assert(r matches Ok(l) && string_views(l@) == string_views(lines@));
    r
}

/// Validates `layout`, then wraps `text` to its safe width with a measurer that may fail.
pub fn try_wrap_text_for_layout<M: FallibleTextWidthMeasurer>(
    text: &str,
    layout: &TextImageLayout,
    measurer: &M,
) -> (r: Result<Vec<String>, TextWrapError<M::Error>>)
    ensures
        match r {
            Ok(lines) => layout.spec_check() is Ok && exists|widths: Seq<u32>|
                #[trigger] wraps_with_widths(
                    text@,
                    layout_safe_width(layout),
                    widths,
                    string_views(lines@),
                ) && answered_ok_by(measurer, text@, layout_safe_width(layout), widths),
            Err(TextWrapError::Layout(e)) => layout.spec_check() == Err::<(), DomainErrorView>(
                e@,
            ),
            Err(TextWrapError::Measure(e)) => layout.spec_check() is Ok && measured_count(text@)
                > 0 && fails_with(measurer, text@, layout_safe_width(layout), e),
        },
{
    match layout.validate() {
        Ok(()) => {},
        Err(e) => {
            return Err(TextWrapError::Layout(e));
        },
    }
    let safe_width_px = match layout.safe_width_px() {
        Some(width_px) => width_px,
        None => {
            return Err(
                TextWrapError::Layout(
                    DomainError::PrintableWidthTooSmall {
                        paper_width_px: layout.paper_width_px,
                        margin_px: layout.margin_px,
                    },
                ),
            );
        },
    };
    match try_wrap_text_to_width(text, safe_width_px, measurer) {
        Ok(lines) => {
            proof {
                let widths = choose|widths: Seq<u32>|
                    wraps_with_widths(text@, safe_width_px, widths, string_views(lines@))
                        && answered_ok_by(measurer, text@, safe_width_px, widths);
                assert(wraps_with_widths(
                    text@,
                    layout_safe_width(layout),
                    widths,
                    string_views(lines@),
                ));
                assert(answered_ok_by(measurer, text@, layout_safe_width(layout), widths));
            }
            let r = Ok(lines);
            assert(r matches Ok(l) && string_views(l@) == string_views(lines@));
            r
        },
        Err(e) => Err(TextWrapError::Measure(e)),
    }
}

proof fn lemma_trace_keeps_text(text: Seq<char>, max_width_px: u32, widths: Seq<u32>)
    ensures
        joined(wrap_trace(text, max_width_px, widths).0) + wrap_trace(text, max_width_px, widths).1
            == without_newlines(text),
    decreases text.len(),
{
    if text.len() > 0 {
        lemma_trace_keeps_text(text.drop_last(), max_width_px, widths);
        let (lines, current) = wrap_trace(text.drop_last(), max_width_px, widths);
        let c = text.last();
        assert(joined(lines.push(current)) == joined(lines) + current) by {
            assert(lines.push(current).drop_last() == lines);
        }
        if c != '\n' {
            assert(joined(lines) + current.push(c) == (joined(lines) + current).push(c));
            assert(joined(lines.push(current)) + seq![c] == (joined(lines) + current).push(c));
        }
    }
}

/// Wrapping loses and adds no character, whatever the widths: the lines, joined, are the text
/// without its newlines.
pub proof fn lemma_wrapped_lines_keep_text(text: Seq<char>, max_width_px: u32, widths: Seq<u32>)
    ensures
        joined(traced_lines(text, max_width_px, widths)) == without_newlines(text),
{
    lemma_trace_keeps_text(text, max_width_px, widths);
    let (lines, current) = wrap_trace(text, max_width_px, widths);
    assert(lines.push(current).drop_last() == lines);
}

proof fn lemma_trace_line_count(text: Seq<char>, max_width_px: u32, widths: Seq<u32>)
    ensures
        wrap_trace(text, max_width_px, widths).0.len() >= newline_count(text),
    decreases text.len(),
{
    if text.len() > 0 {
        lemma_trace_line_count(text.drop_last(), max_width_px, widths);
    }
}

/// Every newline ends a line, whatever the widths, so an empty paragraph stays an empty line:
/// there is at least one line more than there are newlines.
pub proof fn lemma_wrapped_lines_keep_paragraphs(
    text: Seq<char>,
    max_width_px: u32,
    widths: Seq<u32>,
)
    ensures
        traced_lines(text, max_width_px, widths).len() >= newline_count(text) + 1,
{
    lemma_trace_line_count(text, max_width_px, widths);
}

/// Whether `line` was measured, as the `k`-th measurement, no wider than the limit.
pub open spec fn accepted_as(
    text: Seq<char>,
    max_width_px: u32,
    widths: Seq<u32>,
    line: Seq<char>,
    k: int,
) -> bool {
    &&& 0 <= k < measured_count(text)
    &&& measured_texts(text, max_width_px, widths)[k] == line
    &&& widths[k] <= max_width_px
}

proof fn lemma_measured_texts_len(text: Seq<char>, max_width_px: u32, widths: Seq<u32>)
    ensures
        measured_texts(text, max_width_px, widths).len() == measured_count(text),
    decreases text.len(),
{
    if text.len() > 0 {
        lemma_measured_texts_len(text.drop_last(), max_width_px, widths);
    }
}

proof fn lemma_trace_fits(text: Seq<char>, max_width_px: u32, widths: Seq<u32>)
    ensures
        forall|i: int|
            0 <= i < wrap_trace(text, max_width_px, widths).0.len() && (#[trigger] wrap_trace(
                text,
                max_width_px,
                widths,
            ).0[i]).len() >= 2 ==> exists|k: int|
                accepted_as(text, max_width_px, widths, wrap_trace(text, max_width_px, widths).0[i], k),
        wrap_trace(text, max_width_px, widths).1.len() >= 2 ==> exists|k: int|
            accepted_as(text, max_width_px, widths, wrap_trace(text, max_width_px, widths).1, k),
    decreases text.len(),
{
    if text.len() > 0 {
        let prev = text.drop_last();
        lemma_trace_fits(prev, max_width_px, widths);
        lemma_measured_texts_len(prev, max_width_px, widths);
        let (lines, current) = wrap_trace(prev, max_width_px, widths);
        let before = measured_texts(prev, max_width_px, widths);
        let after = measured_texts(text, max_width_px, widths);
        let m = measured_count(prev);
        assert forall|k: int| 0 <= k < m implies after[k] == before[k] by {}
        assert forall|line: Seq<char>, k: int|
            accepted_as(prev, max_width_px, widths, line, k) implies accepted_as(
                text,
                max_width_px,
                widths,
                line,
                k,
            ) by {}
        let (new_lines, new_current) = wrap_trace(text, max_width_px, widths);
        assert forall|i: int|
            0 <= i < new_lines.len() && (#[trigger] new_lines[i]).len() >= 2 implies exists|k: int|
            accepted_as(text, max_width_px, widths, new_lines[i], k) by {
            if i < lines.len() {
                assert(new_lines[i] == lines[i]);
                let k = choose|k: int| accepted_as(prev, max_width_px, widths, lines[i], k);
                assert(accepted_as(text, max_width_px, widths, new_lines[i], k));
            } else {
                assert(new_lines[i] == current);
                let k = choose|k: int| accepted_as(prev, max_width_px, widths, current, k);
                assert(accepted_as(text, max_width_px, widths, new_lines[i], k));
            }
        }
        if new_current.len() >= 2 {
            if text.last() != '\n' && widths[m as int] <= max_width_px {
                assert(after[m as int] == current.push(text.last()));
                assert(accepted_as(text, max_width_px, widths, new_current, m as int));
            }
        }
    }
}

/// Every line of two or more characters is one the measurer found no wider than the limit; only
/// a line of a single character (or none) can be wider.
pub proof fn lemma_wrapped_lines_fit(text: Seq<char>, max_width_px: u32, widths: Seq<u32>)
    ensures
        forall|i: int|
            0 <= i < traced_lines(text, max_width_px, widths).len() && (#[trigger] traced_lines(
                text,
                max_width_px,
                widths,
            )[i]).len() >= 2 ==> exists|k: int|
                accepted_as(text, max_width_px, widths, traced_lines(text, max_width_px, widths)[i], k),
{
    lemma_trace_fits(text, max_width_px, widths);
    let (lines, current) = wrap_trace(text, max_width_px, widths);
    let all = lines.push(current);
    assert forall|i: int| 0 <= i < all.len() && (#[trigger] all[i]).len() >= 2 implies exists|k: int|
        accepted_as(text, max_width_px, widths, all[i], k) by {
        if i < lines.len() {
            assert(all[i] == lines[i]);
        }
    }
}

/// With a measurer's own answers, every wrapped line of two or more characters is one the
/// measurer may measure no wider than the limit.
pub proof fn lemma_measured_lines_fit<M: TextWidthMeasurer>(
    measurer: &M,
    text: Seq<char>,
    max_width_px: u32,
    widths: Seq<u32>,
)
    requires
        widths.len() == measured_count(text),
        answered_by(measurer, text, max_width_px, widths),
    ensures
        forall|i: int|
            0 <= i < traced_lines(text, max_width_px, widths).len() && (#[trigger] traced_lines(
                text,
                max_width_px,
                widths,
            )[i]).len() >= 2 ==> exists|w: u32|
                w <= max_width_px && measures_as(
                    measurer,
                    traced_lines(text, max_width_px, widths)[i],
                    w,
                ),
{
    lemma_wrapped_lines_fit(text, max_width_px, widths);
    let lines = traced_lines(text, max_width_px, widths);
    assert forall|i: int| 0 <= i < lines.len() && (#[trigger] lines[i]).len() >= 2 implies exists|
        w: u32,
    | w <= max_width_px && measures_as(measurer, lines[i], w) by {
        let k = choose|k: int| accepted_as(text, max_width_px, widths, lines[i], k);
        assert(measures_as(measurer, measured_texts(text, max_width_px, widths)[k], widths[k]));
    }
}

/// Whether `measurer` answers every text with one width only.
pub open spec fn is_deterministic<M: TextWidthMeasurer>(measurer: &M) -> bool {
    forall|text: Seq<char>, a: u32, b: u32|
        #[trigger] measures_as(measurer, text, a) && #[trigger] measures_as(measurer, text, b) ==> a
            == b
}

/// A measurer that answers every text with one width only answers a wrap with one sequence of
/// widths.
pub proof fn lemma_answered_widths_unique<M: TextWidthMeasurer>(
    measurer: &M,
    text: Seq<char>,
    max_width_px: u32,
    a: Seq<u32>,
    b: Seq<u32>,
)
    requires
        is_deterministic(measurer),
        a.len() == measured_count(text),
        b.len() == measured_count(text),
        answered_by(measurer, text, max_width_px, a),
        answered_by(measurer, text, max_width_px, b),
    ensures
        a == b,
    decreases text.len(),
{
    if text.len() > 0 {
        let prev = text.drop_last();
        let n = measured_count(prev);
        let a1 = a.take(n as int);
        let b1 = b.take(n as int);
        lemma_measured_texts_len(prev, max_width_px, a);
        lemma_measured_texts_len(prev, max_width_px, b);
        lemma_measured_texts_use_own_widths(prev, max_width_px, a, a1);
        lemma_measured_texts_use_own_widths(prev, max_width_px, b, b1);
        assert forall|k: int| 0 <= k < a1.len() implies measures_as(
            measurer,
            #[trigger] measured_texts(prev, max_width_px, a1)[k],
            a1[k],
        ) by {
            assert(measured_texts(text, max_width_px, a)[k] == measured_texts(prev, max_width_px, a)[k]);
        }
        assert forall|k: int| 0 <= k < b1.len() implies measures_as(
            measurer,
            #[trigger] measured_texts(prev, max_width_px, b1)[k],
            b1[k],
        ) by {
            assert(measured_texts(text, max_width_px, b)[k] == measured_texts(prev, max_width_px, b)[k]);
        }
        lemma_answered_widths_unique(measurer, prev, max_width_px, a1, b1);
        if text.last() == '\n' {
            assert(a =~= a1);
            assert(b =~= b1);
        } else {
            assert forall|k: int| 0 <= k < n implies a[k] == b[k] by {
                assert(a[k] == a1[k] && b[k] == b1[k]);
            }
            lemma_trace_uses_own_widths(prev, max_width_px, a, b);
            let t = wrap_trace(prev, max_width_px, a).1.push(text.last());
            assert(measured_texts(text, max_width_px, a)[n as int] == t);
            assert(measured_texts(text, max_width_px, b)[n as int] == t);
            assert(measures_as(measurer, t, a[n as int]));
            assert(measures_as(measurer, t, b[n as int]));
            assert(a =~= b) by {
                assert forall|k: int| 0 <= k < a.len() implies a[k] == b[k] by {
                    if k < n {
                        assert(a[k] == a1[k] && b[k] == b1[k]);
                    }
                }
            }
        }
    }
}

/// With a measurer that answers every text with one width only, any two wraps of the same text
/// to the same width give the same lines: so wrapping for a layout gives what wrapping to its
/// safe width gives.
pub proof fn lemma_wraps_agree<M: TextWidthMeasurer>(
    measurer: &M,
    text: Seq<char>,
    max_width_px: u32,
    a: Seq<u32>,
    b: Seq<u32>,
    lines_a: Seq<Seq<char>>,
    lines_b: Seq<Seq<char>>,
)
    requires
        is_deterministic(measurer),
        wraps_with_widths(text, max_width_px, a, lines_a),
        answered_by(measurer, text, max_width_px, a),
        wraps_with_widths(text, max_width_px, b, lines_b),
        answered_by(measurer, text, max_width_px, b),
    ensures
        lines_a == lines_b,
{
    lemma_answered_widths_unique(measurer, text, max_width_px, a, b);
}

/// A fallible measurer whose successful answers are answers of an infallible `measurer` that
/// answers every text with one width only gives, when the wrap succeeds, the lines that
/// wrapping with `measurer` gives.
pub proof fn lemma_fallible_wrap_agrees<F: FallibleTextWidthMeasurer, M: TextWidthMeasurer>(
    fallible: &F,
    measurer: &M,
    text: Seq<char>,
    max_width_px: u32,
    a: Seq<u32>,
    b: Seq<u32>,
    lines_a: Seq<Seq<char>>,
    lines_b: Seq<Seq<char>>,
)
    requires
        is_deterministic(measurer),
        forall|t: Seq<char>, w: u32|
            #[trigger] try_measures_as(fallible, t, Ok::<u32, F::Error>(w)) ==> measures_as(
                measurer,
                t,
                w,
            ),
        wraps_with_widths(text, max_width_px, a, lines_a),
        answered_ok_by(fallible, text, max_width_px, a),
        wraps_with_widths(text, max_width_px, b, lines_b),
        answered_by(measurer, text, max_width_px, b),
    ensures
        lines_a == lines_b,
{
    assert forall|k: int| 0 <= k < a.len() implies measures_as(
        measurer,
        #[trigger] measured_texts(text, max_width_px, a)[k],
        a[k],
    ) by {
        assert(try_measures_as(
            fallible,
            measured_texts(text, max_width_px, a)[k],
            Ok::<u32, F::Error>(a[k]),
        ));
    }
    lemma_answered_widths_unique(measurer, text, max_width_px, a, b);
}

/// Whether `text` holds no newline.
pub open spec fn has_no_newline(text: Seq<char>) -> bool {
    forall|i: int| 0 <= i < text.len() ==> text[i] != '\n'
}

/// The line that follows completed line `j` of a trace: the next completed one, or the line
/// being built.
spec fn next_line(lines: Seq<Seq<char>>, current: Seq<char>, j: int) -> Seq<char> {
    if j + 1 < lines.len() {
        lines[j + 1]
    } else {
        current
    }
}

proof fn lemma_trace_breaks_only_when_too_wide(text: Seq<char>, max_width_px: u32, widths: Seq<u32>)
    requires
        has_no_newline(text),
    ensures
        ({
            let (lines, current) = wrap_trace(text, max_width_px, widths);
            forall|j: int|
                0 <= j < lines.len() ==> next_line(lines, current, j).len() > 0 && exists|k: int|
                    0 <= k < measured_count(text) && #[trigger] measured_texts(
                        text,
                        max_width_px,
                        widths,
                    )[k] == lines[j].push(next_line(lines, current, j)[0]) && widths[k]
                        > max_width_px
        }),
    decreases text.len(),
{
    if text.len() > 0 {
        let prev = text.drop_last();
        assert(has_no_newline(prev)) by {
            assert forall|i: int| 0 <= i < prev.len() implies prev[i] != '\n' by {
                assert(prev[i] == text[i]);
            }
        }
        lemma_trace_breaks_only_when_too_wide(prev, max_width_px, widths);
        lemma_measured_texts_len(prev, max_width_px, widths);
        let (ls, cur) = wrap_trace(prev, max_width_px, widths);
        let (lines, current) = wrap_trace(text, max_width_px, widths);
        let c = text.last();
        assert(c == text[text.len() - 1]);
        let m = measured_count(prev);
        let before = measured_texts(prev, max_width_px, widths);
        let after = measured_texts(text, max_width_px, widths);
        assert(after == before.push(cur.push(c)));
        assert forall|j: int|
            0 <= j < lines.len() implies next_line(lines, current, j).len() > 0 && exists|k: int|
            0 <= k < measured_count(text) && #[trigger] measured_texts(
                text,
                max_width_px,
                widths,
            )[k] == lines[j].push(next_line(lines, current, j)[0]) && widths[k] > max_width_px by {
            if j < ls.len() {
                let k = choose|k: int|
                    0 <= k < measured_count(prev) && #[trigger] measured_texts(
                        prev,
                        max_width_px,
                        widths,
                    )[k] == ls[j].push(next_line(ls, cur, j)[0]) && widths[k] > max_width_px;
                assert(after[k] == before[k]);
                assert(lines[j] == ls[j]);
                if j + 1 < ls.len() {
                    assert(next_line(lines, current, j) == next_line(ls, cur, j));
                } else if widths[m as int] > max_width_px {
                    assert(next_line(lines, current, j) == cur);
                } else {
                    assert(next_line(lines, current, j) == cur.push(c));
                    assert(cur.push(c)[0] == cur[0]);
                }
            } else {
                assert(widths[m as int] > max_width_px);
                assert(lines[j] == cur);
                assert(next_line(lines, current, j) == seq![c]);
                assert(after[m as int] == lines[j].push(next_line(lines, current, j)[0]));
            }
        }
    }
}

/// A line of a paragraph is broken only where it must be: in wrapped text without a newline,
/// every line but the last is followed by a line that is not empty, and the line extended by
/// the next line's first character is a text the measurer may measure wider than the limit.
pub proof fn lemma_lines_break_only_when_too_wide<M: TextWidthMeasurer>(
    measurer: &M,
    text: Seq<char>,
    max_width_px: u32,
    widths: Seq<u32>,
    lines: Seq<Seq<char>>,
)
    requires
        has_no_newline(text),
        wraps_with_widths(text, max_width_px, widths, lines),
        answered_by(measurer, text, max_width_px, widths),
    ensures
        forall|j: int|
            1 <= j < lines.len() ==> (#[trigger] lines[j]).len() > 0 && exists|w: u32|
                w > max_width_px && #[trigger] measures_as(
                    measurer,
                    lines[j - 1].push(lines[j][0]),
                    w,
                ),
{
    lemma_trace_breaks_only_when_too_wide(text, max_width_px, widths);
    let (ls, cur) = wrap_trace(text, max_width_px, widths);
    assert forall|j: int| 1 <= j < lines.len() implies (#[trigger] lines[j]).len() > 0
        && exists|w: u32|
        w > max_width_px && #[trigger] measures_as(measurer, lines[j - 1].push(lines[j][0]), w) by {
        let p = j - 1;
        assert(lines[p] == ls[p]);
        assert(lines[j] == next_line(ls, cur, p));
        let k = choose|k: int|
            0 <= k < measured_count(text) && #[trigger] measured_texts(text, max_width_px, widths)[k]
                == ls[p].push(next_line(ls, cur, p)[0]) && widths[k] > max_width_px;
        assert(measures_as(measurer, measured_texts(text, max_width_px, widths)[k], widths[k]));
    }
}

} // verus!
