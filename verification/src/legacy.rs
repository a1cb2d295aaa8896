//! Decoder for the legacy inline control-code encoding.
//!
//! A marker character followed by one code letter switches the current
//! foreground color, adds a style flag, or resets both.  The scan keeps an
//! accumulating text buffer and flushes it as one [`StyledSegment`] whenever
//! a recognized code is met, and once more at the end of the input.  A
//! marker followed by an unrecognized letter is kept as literal text.

use vstd::prelude::*;

use crate::strutil::chars_to_string;
use crate::style::{
    code_color, color_of_code, marker, no_styles, style_code_of, style_of_code, LegacyStyle, Rgb,
    SegView, StyleSet, StyledSegment,
};

verus! {

/// The running state of the scan: the current color and the active styles.
#[derive(Clone, Copy, Debug, PartialEq, Eq, Structural)]
pub struct DecoderState {
    pub color: Option<Rgb>,
    pub styles: StyleSet,
}

/// The state at the start of a scan and right after a reset code: unset
/// color, no styles.
pub open spec fn initial_state() -> DecoderState {
    DecoderState { color: None, styles: no_styles() }
}

/// A code letter the decoder acts on: a palette color or a style toggle.
pub open spec fn is_recognized_code(c: char) -> bool {
    code_color(c) is Some || style_of_code(c) is Some
}

/// The style set with one more flag set.
pub open spec fn set_style(st: StyleSet, s: LegacyStyle) -> StyleSet {
    match s {
        LegacyStyle::Obfuscated => StyleSet {
            obfuscated: true,
            bold: st.bold,
            strikethrough: st.strikethrough,
            underline: st.underline,
            italic: st.italic,
        },
        LegacyStyle::Bold => StyleSet {
            obfuscated: st.obfuscated,
            bold: true,
            strikethrough: st.strikethrough,
            underline: st.underline,
            italic: st.italic,
        },
        LegacyStyle::Strikethrough => StyleSet {
            obfuscated: st.obfuscated,
            bold: st.bold,
            strikethrough: true,
            underline: st.underline,
            italic: st.italic,
        },
        LegacyStyle::Underline => StyleSet {
            obfuscated: st.obfuscated,
            bold: st.bold,
            strikethrough: st.strikethrough,
            underline: true,
            italic: st.italic,
        },
        LegacyStyle::Italic => StyleSet {
            obfuscated: st.obfuscated,
            bold: st.bold,
            strikethrough: st.strikethrough,
            underline: st.underline,
            italic: true,
        },
        LegacyStyle::Reset => st,
    }
}

/// The state after one recognized code: a color code switches the color and
/// keeps the styles, a style code adds its flag, the reset code returns to
/// the initial state.  The color table takes precedence over the style
/// table on the two letters both tables hold.
pub open spec fn apply_code(st: DecoderState, c: char) -> DecoderState {
    if code_color(c) is Some {
        DecoderState { color: code_color(c), styles: st.styles }
    } else {
        match style_of_code(c) {
            Some(LegacyStyle::Reset) => initial_state(),
            Some(s) => DecoderState { color: st.color, styles: set_style(st.styles, s) },
            None => st,
        }
    }
}

/// The segments a buffer flush emits: one segment carrying the current
/// state, or none when the buffer is empty.
pub open spec fn flush(buf: Seq<char>, st: DecoderState) -> Seq<SegView> {
    if buf.len() == 0 {
        seq![]
    } else {
        seq![SegView { text: buf, color: st.color, styles: st.styles }]
    }
}

/// The segments emitted by the rest of a scan, from the given state and
/// pending buffer.
pub open spec fn decode_from(s: Seq<char>, st: DecoderState, buf: Seq<char>) -> Seq<SegView>
    decreases s.len(),
{
    if s.len() == 0 {
        flush(buf, st)
    } else if s[0] == marker() && s.len() >= 2 && is_recognized_code(s[1]) {
        flush(buf, st) + decode_from(s.skip(2), apply_code(st, s[1]), Seq::empty())
    } else if s[0] == marker() && s.len() >= 2 {
        decode_from(s.skip(2), st, buf + seq![s[0], s[1]])
    } else {
        decode_from(s.skip(1), st, buf.push(s[0]))
    }
}

/// The segments a whole legacy-coded string decodes to.
pub open spec fn decode_legacy_spec(s: Seq<char>) -> Seq<SegView> {
    decode_from(s, initial_state(), Seq::empty())
}

/// The input with every recognized control pair removed.  A marker followed
/// by an unrecognized letter stays, as the decoder keeps it as literal text.
pub open spec fn strip_codes(s: Seq<char>) -> Seq<char>
    decreases s.len(),
{
    if s.len() == 0 {
        Seq::empty()
    } else if s[0] == marker() && s.len() >= 2 && is_recognized_code(s[1]) {
        strip_codes(s.skip(2))
    } else if s[0] == marker() && s.len() >= 2 {
        seq![s[0], s[1]] + strip_codes(s.skip(2))
    } else {
        seq![s[0]] + strip_codes(s.skip(1))
    }
}

/// The texts of a segment sequence, concatenated in order.
pub open spec fn seg_texts(segs: Seq<SegView>) -> Seq<char>
    decreases segs.len(),
{
    if segs.len() == 0 {
        Seq::empty()
    } else {
        segs[0].text + seg_texts(segs.skip(1))
    }
}

proof fn lemma_seg_texts_flush_prepend(buf: Seq<char>, st: DecoderState, rest: Seq<SegView>)
    ensures
        seg_texts(flush(buf, st) + rest) == buf + seg_texts(rest),
{
    if buf.len() == 0 {
        assert(flush(buf, st) + rest =~= rest);
        assert(buf + seg_texts(rest) =~= seg_texts(rest));
    } else {
        let seg = SegView { text: buf, color: st.color, styles: st.styles };
        let whole = seq![seg] + rest;
        assert(whole[0] == seg);
        assert(whole.skip(1) =~= rest);
        assert(seg_texts(whole) == buf + seg_texts(rest));
    }
}

proof fn lemma_decode_from_texts(s: Seq<char>, st: DecoderState, buf: Seq<char>)
    ensures
        seg_texts(decode_from(s, st, buf)) == buf + strip_codes(s),
    decreases s.len(),
{
    if s.len() == 0 {
        if buf.len() == 0 {
            assert(decode_from(s, st, buf) =~= Seq::<SegView>::empty());
            assert(buf + strip_codes(s) =~= Seq::<char>::empty());
        } else {
            let seg = SegView { text: buf, color: st.color, styles: st.styles };
            let out = seq![seg];
            assert(out.skip(1) =~= Seq::<SegView>::empty());
            assert(seg_texts(out) == buf + seg_texts(Seq::<SegView>::empty()));
            assert(buf + strip_codes(s) =~= buf);
            assert(buf + seg_texts(Seq::<SegView>::empty()) =~= buf);
        }
    } else if s[0] == marker() && s.len() >= 2 && is_recognized_code(s[1]) {
        lemma_decode_from_texts(s.skip(2), apply_code(st, s[1]), Seq::empty());
        let rest = decode_from(s.skip(2), apply_code(st, s[1]), Seq::empty());
        lemma_seg_texts_flush_prepend(buf, st, rest);
        assert(Seq::<char>::empty() + strip_codes(s.skip(2)) =~= strip_codes(s.skip(2)));
    } else if s[0] == marker() && s.len() >= 2 {
        lemma_decode_from_texts(s.skip(2), st, buf + seq![s[0], s[1]]);
        assert((buf + seq![s[0], s[1]]) + strip_codes(s.skip(2)) =~= buf + (seq![s[0], s[1]]
            + strip_codes(s.skip(2))));
    } else {
        lemma_decode_from_texts(s.skip(1), st, buf.push(s[0]));
        assert(buf.push(s[0]) + strip_codes(s.skip(1)) =~= buf + (seq![s[0]] + strip_codes(
            s.skip(1),
        )));
    }
}

/// Decoding preserves the text: concatenating the decoded segments' texts in
/// order gives back the input with every recognized control pair removed.
/// On a string whose every marker starts a recognized code, that is the
/// input with all control sequences removed.
pub proof fn lemma_decode_text_round_trip(s: Seq<char>)
    ensures
        seg_texts(decode_legacy_spec(s)) == strip_codes(s),
{
    lemma_decode_from_texts(s, initial_state(), Seq::empty());
    assert(Seq::<char>::empty() + strip_codes(s) =~= strip_codes(s));
}

/// A reset code erases the whole scan state: decoding continues exactly as a
/// fresh scan would, whatever color and styles were active before.
pub proof fn lemma_reset_forgets_state(t: Seq<char>, st: DecoderState)
    ensures
        decode_from(seq![marker(), 'r'] + t, st, Seq::empty()) == decode_from(
            t,
            initial_state(),
            Seq::empty(),
        ),
{
    let s = seq![marker(), 'r'] + t;
    assert(s[0] == marker());
    assert(s[1] == 'r');
    assert(s.len() >= 2);
    assert(is_recognized_code('r'));
    assert(apply_code(st, 'r') == initial_state());
    assert(s.skip(2) =~= t);
    assert(flush(Seq::empty(), st) =~= Seq::<SegView>::empty());
    assert(decode_from(s, st, Seq::empty()) =~= decode_from(t, initial_state(), Seq::empty()));
}

/// Marker-free text decodes to at most one segment, carrying the current
/// state.
pub proof fn lemma_decode_plain_text(t: Seq<char>, st: DecoderState, buf: Seq<char>)
    requires
        forall|j: int| 0 <= j < t.len() ==> t[j] != marker(),
    ensures
        decode_from(t, st, buf) == flush(buf + t, st),
    decreases t.len(),
{
    if t.len() == 0 {
        assert(buf + t =~= buf);
    } else {
        assert(t[0] != marker());
        lemma_decode_plain_text(t.skip(1), st, buf.push(t[0]));
        assert(buf.push(t[0]) + t.skip(1) =~= buf + t);
    }
}

/// After a reset code, immediately following plain text comes out as one
/// segment with unset color and the empty style set, regardless of the state
/// the scan was in before the reset.
pub proof fn lemma_reset_then_plain_text(t: Seq<char>, st: DecoderState)
    requires
        t.len() > 0,
        forall|j: int| 0 <= j < t.len() ==> t[j] != marker(),
    ensures
        decode_from(seq![marker(), 'r'] + t, st, Seq::empty()) == seq![
            SegView { text: t, color: None, styles: no_styles() },
        ],
{
    lemma_reset_forgets_state(t, st);
    lemma_decode_plain_text(t, initial_state(), Seq::empty());
    assert(Seq::<char>::empty() + t =~= t);
}

/// Decodes a legacy-coded string into its styled segments.
pub fn decode_legacy(s: &str) -> (segs: Vec<StyledSegment>)
    ensures
        segs.deep_view() == decode_legacy_spec(s@),
{
    let n = s.unicode_len();
    let mut i: usize = 0;
    let mut color: Option<Rgb> = None;
    let mut styles = StyleSet::empty();
    let mut buf: Vec<char> = Vec::new();
    let mut out: Vec<StyledSegment> = Vec::new();
    proof {
        assert(s@.skip(0) =~= s@);
        assert(out.deep_view() =~= Seq::<SegView>::empty());
        assert(buf@ =~= Seq::<char>::empty());
        assert(out.deep_view() + decode_from(s@, DecoderState { color, styles }, buf@)
            =~= decode_from(s@, initial_state(), Seq::empty()));
    }
    while i < n
        invariant
            n == s@.len(),
            i <= n,
            decode_legacy_spec(s@) == out.deep_view() + decode_from(
                s@.skip(i as int),
                DecoderState { color, styles },
                buf@,
            ),
        decreases n - i,
    {
        let ghost pre_rest = s@.skip(i as int);
        let ghost pre_state = DecoderState { color, styles };
        let ghost pre_out = out.deep_view();
        let ghost pre_buf = buf@;
        proof {
            assert(pre_rest.len() == n - i);
            assert(pre_rest[0] == s@[i as int]);
        }
        let c = s.get_char(i);
        if c == '\u{a7}' && i + 1 < n {
            proof {
                assert(pre_rest[1] == s@[i as int + 1]);
            }
            let c2 = s.get_char(i + 1);
            let col = color_of_code(c2);
            let sty = style_code_of(c2);
            if col.is_some() || sty.is_some() {
                if buf.len() > 0 {
                    let text = chars_to_string(&buf);
                    out.push(StyledSegment { text, color, styles });
                    buf = Vec::new();
                    proof {
                        assert(out.deep_view() =~= pre_out.push(
                            SegView { text: pre_buf, color: pre_state.color, styles: pre_state.styles },
                        ));
                        assert(pre_out + flush(pre_buf, pre_state) =~= out.deep_view());
                    }
                } else {
                    proof {
                        assert(pre_out + flush(pre_buf, pre_state) =~= out.deep_view());
                    }
                }
                match col {
                    Some(rgb) => {
                        color = Some(rgb);
                    },
                    None => {
                        match sty {
                            Some(LegacyStyle::Reset) => {
                                color = None;
                                styles = StyleSet::empty();
                            },
                            Some(LegacyStyle::Obfuscated) => {
                                styles.obfuscated = true;
                            },
                            Some(LegacyStyle::Bold) => {
                                styles.bold = true;
                            },
                            Some(LegacyStyle::Strikethrough) => {
                                styles.strikethrough = true;
                            },
                            Some(LegacyStyle::Underline) => {
                                styles.underline = true;
                            },
                            Some(LegacyStyle::Italic) => {
                                styles.italic = true;
                            },
                            None => {},
                        }
                    },
                }
                i += 2;
                proof {
                    let st2 = DecoderState { color, styles };
                    let rest = decode_from(pre_rest.skip(2), st2, Seq::empty());
                    assert(pre_rest[0] == marker());
                    assert(st2 == apply_code(pre_state, pre_rest[1]));
                    assert(buf@ =~= Seq::<char>::empty());
                    assert(s@.skip(i as int) =~= pre_rest.skip(2));
                    assert(decode_from(pre_rest, pre_state, pre_buf) == flush(pre_buf, pre_state)
                        + rest);
                    assert(out.deep_view() =~= pre_out + flush(pre_buf, pre_state));
                    assert(pre_out + (flush(pre_buf, pre_state) + rest) =~= (pre_out + flush(
                        pre_buf,
                        pre_state,
                    )) + rest);
                    assert(out.deep_view() + decode_from(s@.skip(i as int), st2, buf@) =~= pre_out
                        + decode_from(pre_rest, pre_state, pre_buf));
                }
            } else {
                buf.push(c);
                buf.push(c2);
                i += 2;
                proof {
                    assert(!is_recognized_code(pre_rest[1]));
                    assert(buf@ =~= pre_buf + seq![pre_rest[0], pre_rest[1]]);
                    assert(s@.skip(i as int) =~= pre_rest.skip(2));
                    assert(decode_from(pre_rest, pre_state, pre_buf) == decode_from(
                        s@.skip(i as int),
                        pre_state,
                        buf@,
                    ));
                }
            }
        } else {
            buf.push(c);
            i += 1;
            proof {
                assert(buf@ =~= pre_buf.push(pre_rest[0]));
                assert(s@.skip(i as int) =~= pre_rest.skip(1));
                if pre_rest[0] == marker() && pre_rest.len() >= 2 {
                    assert(false);
                }
                assert(decode_from(pre_rest, pre_state, pre_buf) == decode_from(
                    s@.skip(i as int),
                    pre_state,
                    buf@,
                ));
            }
        }
    }
    proof {
        assert(s@.skip(n as int) =~= Seq::<char>::empty());
        assert(decode_from(s@.skip(n as int), DecoderState { color, styles }, buf@) == flush(
            buf@,
            DecoderState { color, styles },
        ));
    }
    if buf.len() > 0 {
        let text = chars_to_string(&buf);
        let ghost pre_out = out.deep_view();
        let ghost pre_buf = buf@;
        out.push(StyledSegment { text, color, styles });
        proof {
            assert(out.deep_view() =~= pre_out + flush(pre_buf, DecoderState { color, styles }));
        }
    } else {
        proof {
            assert(out.deep_view() =~= out.deep_view() + flush(
                buf@,
                DecoderState { color, styles },
            ));
        }
    }
    out
}

} // verus!
