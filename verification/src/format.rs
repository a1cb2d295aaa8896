//! The output formatter: label padding, version trimming, splitting decoded
//! segments on newlines, and assembling the labeled field lines of one
//! report.

use vstd::prelude::*;

use crate::json::json_parse;
use crate::legacy::{decode_legacy, decode_legacy_spec};
use crate::numfmt::{dec_digits, dec_int, i64_to_dec, u64_to_dec};
use crate::status::{BedrockStatus, GameMode, JavaStatus};
use crate::strutil::{chars_to_string, split_chars, split_on};
use crate::style::{no_styles, SegView, StyleSet, StyledSegment};
use crate::tree::{decode_description_spec, decode_java_description};

verus! {

// ---------------------------------------------------------------------------
// Display width and the padded field label
// ---------------------------------------------------------------------------

/// The terminal display width of a text: wide characters count two columns.
/// The width depends on the characters alone.
pub uninterp spec fn display_width(s: Seq<char>) -> nat;

/// Relies on unicode_width::UnicodeWidthStr::width.
#[verifier::external_body]
pub(crate) fn str_display_width(s: &str) -> (w: usize)
    ensures
        w == display_width(s@),
{
    unicode_width::UnicodeWidthStr::width(s)
}

/// A run of spaces.
pub open spec fn spaces(n: nat) -> Seq<char> {
    Seq::new(n, |i: int| ' ')
}

/// A field label padded with spaces on the left to ten display columns; a
/// label already that wide is kept as it is.
pub open spec fn field_label_spec(s: Seq<char>) -> Seq<char> {
    let pad: nat = if display_width(s) < 10 {
        (10 - display_width(s)) as nat
    } else {
        0
    };
    spaces(pad) + s
}

/// Pads a field label with spaces on the left to ten display columns.
pub fn output_field_format(field: &str) -> (r: String)
    ensures
        r@ == field_label_spec(field@),
{
    let w = str_display_width(field);
    let pad: usize = if w < 10 {
        10 - w
    } else {
        0
    };
    let mut v: Vec<char> = Vec::new();
    let mut i: usize = 0;
    while i < pad
        invariant
            i <= pad,
            v@ =~= spaces(i as nat),
        decreases pad - i,
    {
        v.push(' ');
        proof {
            assert(v@ =~= spaces(i as nat + 1));
        }
        i += 1;
    }
    let mut out = chars_to_string(&v);
    out.append(field);
    proof {
        assert(out@ =~= field_label_spec(field@));
    }
    out
}

// ---------------------------------------------------------------------------
// Version trimming
// ---------------------------------------------------------------------------

/// A version string short of thirty columns is kept whole; a wider one is
/// cut to its first thirty characters with an ellipsis.
pub open spec fn trim_version_spec(s: Seq<char>) -> Seq<char> {
    if display_width(s) < 30 {
        s
    } else {
        let cut: int = if s.len() < 30 {
            s.len() as int
        } else {
            30
        };
        s.take(cut) + "..."@
    }
}

/// Trims a version string to thirty columns, with an ellipsis when cut.
pub fn trim_version(s: &str) -> (r: String)
    ensures
        r@ == trim_version_spec(s@),
{
    let w = str_display_width(s);
    if w < 30 {
        s.to_owned()
    } else {
        let n = s.unicode_len();
        let cut: usize = if n < 30 {
            n
        } else {
            30
        };
        let head = s.substring_char(0, cut);
        let mut out = head.to_owned();
        out.append("...");
        proof {
            assert(out@ =~= trim_version_spec(s@));
        }
        out
    }
}

// ---------------------------------------------------------------------------
// Splitting segments on newline boundaries
// ---------------------------------------------------------------------------

/// The given segment carrying another text.
pub open spec fn seg_with_text(s: SegView, t: Seq<char>) -> SegView {
    SegView { text: t, color: s.color, styles: s.styles }
}

/// The lines of the rest of a split, given the line collected so far.  Each
/// segment's text is split on newlines; the first piece extends the current
/// line, each further piece starts a new one, and every piece keeps the
/// segment's own color and styles.
pub open spec fn split_segs_from(segs: Seq<SegView>, cur: Seq<SegView>) -> Seq<Seq<SegView>>
    decreases segs.len(),
{
    if segs.len() == 0 {
        seq![cur]
    } else {
        let pieces = split_chars(segs[0].text, '\n');
        let first = cur.push(seg_with_text(segs[0], pieces[0]));
        if pieces.len() == 1 {
            split_segs_from(segs.skip(1), first)
        } else {
            let middles = Seq::new(
                (pieces.len() - 2) as nat,
                |i: int| seq![seg_with_text(segs[0], pieces[i + 1])],
            );
            seq![first] + middles + split_segs_from(
                segs.skip(1),
                seq![seg_with_text(segs[0], pieces.last())],
            )
        }
    }
}

/// The lines a segment sequence splits into on newline boundaries: always at
/// least one line, in order, every piece keeping its segment's style.
pub open spec fn split_segments_spec(segs: Seq<SegView>) -> Seq<Seq<SegView>> {
    split_segs_from(segs, Seq::empty())
}

/// Splits a segment list into lines on newline boundaries.
pub fn split_segments(segs: &Vec<StyledSegment>) -> (r: Vec<Vec<StyledSegment>>)
    ensures
        r.deep_view() == split_segments_spec(segs.deep_view()),
{
    let ghost all = segs.deep_view();
    let n = segs.len();
    let mut out: Vec<Vec<StyledSegment>> = Vec::new();
    let mut cur: Vec<StyledSegment> = Vec::new();
    let mut k: usize = 0;
    proof {
        assert(all.skip(0) =~= all);
        assert(out.deep_view() =~= Seq::<Seq<SegView>>::empty());
        assert(cur.deep_view() =~= Seq::<SegView>::empty());
        assert(out.deep_view() + split_segs_from(all, cur.deep_view()) =~= split_segs_from(
            all,
            Seq::empty(),
        ));
    }
    while k < n
        invariant
            n == segs@.len(),
            all == segs.deep_view(),
            all.len() == n,
            k <= n,
            split_segments_spec(all) == out.deep_view() + split_segs_from(
                all.skip(k as int),
                cur.deep_view(),
            ),
        decreases n - k,
    {
        let ghost pre_rest = all.skip(k as int);
        let ghost pre_out = out.deep_view();
        let ghost pre_cur = cur.deep_view();
        proof {
            assert(pre_rest[0] == all[k as int]);
            assert(all[k as int] == segs@[k as int]@);
        }
        let seg = &segs[k];
        let pieces = split_on(seg.text.as_str(), '\n');
        let ghost pieces_v = split_chars(pre_rest[0].text, '\n');
        proof {
            assert(pieces.deep_view() == pieces_v);
            assert(forall|i: int| 0 <= i < pieces@.len() ==> pieces.deep_view()[i] == pieces@[i]@);
            assert(pieces@.len() == pieces_v.len());
        }
        let first_piece = StyledSegment {
            text: pieces[0].clone(),
            color: seg.color,
            styles: seg.styles,
        };
        let ghost pre_first = pre_cur.push(seg_with_text(pre_rest[0], pieces_v[0]));
        cur.push(first_piece);
        proof {
            assert(cur.deep_view() =~= pre_first);
        }
        let plen = pieces.len();
        if plen > 1 {
            let ghost middles = Seq::new(
                (pieces_v.len() - 2) as nat,
                |i: int| seq![seg_with_text(pre_rest[0], pieces_v[i + 1])],
            );
            let mut p: usize = 1;
            while p < plen
                invariant
                    plen == pieces@.len(),
                    plen == pieces_v.len(),
                    plen > 1,
                    1 <= p <= plen,
                    forall|i: int| 0 <= i < plen ==> pieces.deep_view()[i] == pieces@[i]@,
                    pieces.deep_view() == pieces_v,
                    middles == Seq::new(
                        (pieces_v.len() - 2) as nat,
                        |i: int| seq![seg_with_text(pre_rest[0], pieces_v[i + 1])],
                    ),
                    seg.color == pre_rest[0].color,
                    seg.styles == pre_rest[0].styles,
                    p == 1 ==> out.deep_view() == pre_out && cur.deep_view() == pre_first,
                    p > 1 ==> out.deep_view() == pre_out + seq![pre_first] + middles.take(p - 2)
                        && cur.deep_view() == seq![
                        seg_with_text(pre_rest[0], pieces_v[p - 1]),
                    ],
                decreases plen - p,
            {
                let ghost cur_dv = cur.deep_view();
                out.push(cur);
                cur = Vec::new();
                cur.push(
                    StyledSegment { text: pieces[p].clone(), color: seg.color, styles: seg.styles },
                );
                proof {
                    assert(out.deep_view().last() == cur_dv);
                    assert(cur.deep_view() =~= seq![seg_with_text(pre_rest[0], pieces_v[p as int])]);
                    if p == 1 {
                        assert(out.deep_view() =~= pre_out + seq![pre_first] + middles.take(0));
                    } else {
                        assert(middles[p - 2] =~= cur_dv);
                        assert(middles.take(p - 2).push(middles[p - 2]) =~= middles.take(p - 1));
                        assert(out.deep_view() =~= (pre_out + seq![pre_first] + middles.take(p - 2)).push(
                            middles[p - 2],
                        ));
                        assert(out.deep_view() =~= pre_out + seq![pre_first] + middles.take(p - 1));
                    }
                }
                p += 1;
            }
            proof {
                assert(middles.take(plen - 2) =~= middles);
                assert(cur.deep_view() == seq![seg_with_text(pre_rest[0], pieces_v.last())]);
                assert(split_segs_from(pre_rest, pre_cur) == seq![pre_first] + middles
                    + split_segs_from(pre_rest.skip(1), cur.deep_view()));
                assert(all.skip(k as int + 1) =~= pre_rest.skip(1));
                assert(out.deep_view() + split_segs_from(all.skip(k as int + 1), cur.deep_view())
                    =~= pre_out + (seq![pre_first] + middles + split_segs_from(
                    pre_rest.skip(1),
                    cur.deep_view(),
                )));
            }
        } else {
            proof {
                assert(split_segs_from(pre_rest, pre_cur) == split_segs_from(
                    pre_rest.skip(1),
                    pre_first,
                ));
                assert(all.skip(k as int + 1) =~= pre_rest.skip(1));
            }
        }
        k += 1;
    }
    proof {
        assert(all.skip(n as int) =~= Seq::<SegView>::empty());
    }
    let ghost pre_out = out.deep_view();
    out.push(cur);
    proof {
        assert(out.deep_view() =~= pre_out + seq![cur.deep_view()]);
    }
    out
}

// ---------------------------------------------------------------------------
// Labeled output lines
// ---------------------------------------------------------------------------

/// Which report field a line belongs to; the painter colors by it.
#[derive(Clone, Copy, Debug, PartialEq, Eq, Structural)]
pub enum FieldKind {
    Version,
    Motd,
    Players,
    MapName,
    GameMode,
    PlayerList,
}

/// One labeled output line: the padded label and the styled body.
#[derive(Clone, Debug)]
pub struct OutLine {
    pub kind: FieldKind,
    pub label: String,
    pub body: Vec<StyledSegment>,
}

/// The mathematical value of an [`OutLine`].
#[verifier::ext_equal]
pub struct OutLineView {
    pub kind: FieldKind,
    pub label: Seq<char>,
    pub body: Seq<SegView>,
}

impl View for OutLine {
    type V = OutLineView;

    open spec fn view(&self) -> OutLineView {
        OutLineView { kind: self.kind, label: self.label@, body: self.body.deep_view() }
    }
}

impl DeepView for OutLine {
    type V = OutLineView;

    open spec fn deep_view(&self) -> OutLineView {
        self.view()
    }
}

/// A plain body segment: unset color, no styles.
pub open spec fn plain_seg(t: Seq<char>) -> SegView {
    SegView { text: t, color: None, styles: no_styles() }
}

/// A block of lines of one field: the first carries the padded label, every
/// further one the blank label of equal width.
pub open spec fn labeled_lines_spec(
    label: Seq<char>,
    bodies: Seq<Seq<SegView>>,
    kind: FieldKind,
) -> Seq<OutLineView> {
    Seq::new(
        bodies.len(),
        |i: int|
            OutLineView {
                kind,
                label: field_label_spec(
                    if i == 0 {
                        label
                    } else {
                        Seq::empty()
                    },
                ),
                body: bodies[i],
            },
    )
}

/// The label a Bedrock game mode is shown under.
pub open spec fn game_mode_label_spec(g: GameMode) -> Seq<char> {
    match g {
        GameMode::Survival => "生存"@,
        GameMode::Creative => "创造"@,
        GameMode::Hardcore => "硬核"@,
        GameMode::Spectator => "旁观"@,
        GameMode::Adventure => "冒险"@,
    }
}

/// Shows a Bedrock game mode under its label.
pub fn game_mode_label(g: GameMode) -> (r: String)
    ensures
        r@ == game_mode_label_spec(g),
{
    match g {
        GameMode::Survival => "生存".to_owned(),
        GameMode::Creative => "创造".to_owned(),
        GameMode::Hardcore => "硬核".to_owned(),
        GameMode::Spectator => "旁观".to_owned(),
        GameMode::Adventure => "冒险".to_owned(),
    }
}

/// The version line's body: the trimmed version, then the protocol number
/// in parentheses.
pub open spec fn version_body_spec(version: Seq<char>, protocol: int) -> Seq<SegView> {
    seq![plain_seg(trim_version_spec(version)), plain_seg("("@ + dec_int(protocol) + ")"@)]
}

/// The players line's body: online count, a slash, capacity.
pub open spec fn players_body_spec(online: int, maximum: int) -> Seq<SegView> {
    seq![plain_seg(dec_digits(online as nat) + " / "@ + dec_digits(maximum as nat))]
}

fn version_body(version: &str, protocol: i64) -> (r: Vec<StyledSegment>)
    ensures
        r.deep_view() == version_body_spec(version@, protocol as int),
{
    let mut r: Vec<StyledSegment> = Vec::new();
    r.push(StyledSegment { text: trim_version(version), color: None, styles: StyleSet::empty() });
    let mut paren = "(".to_owned();
    let dec = i64_to_dec(protocol);
    paren.append(dec.as_str());
    paren.append(")");
    r.push(StyledSegment { text: paren, color: None, styles: StyleSet::empty() });
    proof {
        assert(r.deep_view() =~= version_body_spec(version@, protocol as int));
    }
    r
}

fn players_body(online: u32, maximum: u32) -> (r: Vec<StyledSegment>)
    ensures
        r.deep_view() == players_body_spec(online as int, maximum as int),
{
    let mut t = u64_to_dec(online as u64);
    t.append(" / ");
    let m = u64_to_dec(maximum as u64);
    t.append(m.as_str());
    let mut r: Vec<StyledSegment> = Vec::new();
    r.push(StyledSegment { text: t, color: None, styles: StyleSet::empty() });
    proof {
        assert(r.deep_view() =~= players_body_spec(online as int, maximum as int));
    }
    r
}

/// The labeled lines a Java report shows, in fixed field order: version,
/// the description's lines, player counts, then map, game mode and player
/// list where present.  The icon is rendered separately.
pub open spec fn java_motd_lines_spec(s: JavaStatus) -> Seq<OutLineView> {
    let version_line = OutLineView {
        kind: FieldKind::Version,
        label: field_label_spec("Java版"@),
        body: version_body_spec(s.game_version@, s.protocol_version as int),
    };
    let motd = labeled_lines_spec(
        "Motd"@,
        split_segments_spec(decode_description_spec(json_parse(s.description@))),
        FieldKind::Motd,
    );
    let players_line = OutLineView {
        kind: FieldKind::Players,
        label: field_label_spec("在线玩家"@),
        body: players_body_spec(s.players_online as int, s.players_maximum as int),
    };
    let map_lines = match s.map {
        Some(m) => seq![
            OutLineView {
                kind: FieldKind::MapName,
                label: field_label_spec("地图"@),
                body: decode_legacy_spec(m@),
            },
        ],
        None => Seq::empty(),
    };
    let gm_lines = match s.game_mode {
        Some(g) => seq![
            OutLineView {
                kind: FieldKind::GameMode,
                label: field_label_spec("游戏模式"@),
                body: seq![plain_seg(g@)],
            },
        ],
        None => Seq::empty(),
    };
    let player_lines = match s.players {
        Some(ps) => Seq::new(
            ps.deep_view().len(),
            |i: int|
                OutLineView {
                    kind: FieldKind::PlayerList,
                    label: field_label_spec(
                        if i == 0 {
                            "玩家列表"@
                        } else {
                            ""@
                        },
                    ),
                    body: decode_legacy_spec(ps.deep_view()[i]),
                },
        ),
        None => Seq::empty(),
    };
    seq![version_line] + motd + seq![players_line] + map_lines + gm_lines + player_lines
}

/// Lays a Java report out as labeled lines.
pub fn java_motd_lines(s: &JavaStatus) -> (r: Vec<OutLine>)
    ensures
        r.deep_view() == java_motd_lines_spec(*s),
{
    let mut out: Vec<OutLine> = Vec::new();
    out.push(
        OutLine {
            kind: FieldKind::Version,
            label: output_field_format("Java版"),
            body: version_body(s.game_version.as_str(), s.protocol_version as i64),
        },
    );
    let segs = decode_java_description(s.description.as_str());
    let mut motd_lines = split_segments(&segs);
    let ghost mbodies = motd_lines.deep_view();
    let ghost motd_block = labeled_lines_spec("Motd"@, mbodies, FieldKind::Motd);
    let ghost after_version = out.deep_view();
    let mut i: usize = 0;
    let mlen0 = motd_lines.len();
    proof {
        assert(mbodies == split_segments_spec(
            decode_description_spec(json_parse(s.description@)),
        ));
        assert(after_version + motd_block.take(0) =~= after_version);
    }
    while motd_lines.len() > 0
        invariant
            mlen0 == mbodies.len(),
            i + motd_lines@.len() == mbodies.len(),
            motd_block == labeled_lines_spec("Motd"@, mbodies, FieldKind::Motd),
            motd_block.len() == mbodies.len(),
            forall|j: int|
                0 <= j < motd_lines@.len() ==> motd_lines.deep_view()[j] == mbodies[i + j],
            out.deep_view() == after_version + motd_block.take(i as int),
        decreases motd_lines@.len(),
    {
        let label = if i == 0 {
            output_field_format("Motd")
        } else {
            output_field_format("")
        };
        let ghost pre_ml = motd_lines@;
        let ghost pre_dv = motd_lines.deep_view();
        let body = motd_lines.remove(0);
        let ghost pre = out.deep_view();
        out.push(OutLine { kind: FieldKind::Motd, label, body });
        proof {
            reveal_strlit("");
            assert(""@ =~= Seq::<char>::empty());
            assert(body == pre_ml[0]);
            assert(pre_dv[0] == mbodies[i as int]);
            assert(body.deep_view() == mbodies[i as int]);
            assert(out.deep_view() =~~= pre.push(motd_block[i as int]));
            assert(motd_block.take(i as int).push(motd_block[i as int]) =~= motd_block.take(
                i as int + 1,
            ));
            assert(out.deep_view() =~= after_version + motd_block.take(i as int + 1));
            assert(motd_lines@ =~= pre_ml.skip(1));
            assert forall|j: int|
                0 <= j < motd_lines@.len() implies motd_lines.deep_view()[j] == mbodies[i + 1
                + j] by {
                assert(motd_lines@[j] == pre_ml[j + 1]);
                assert(motd_lines.deep_view()[j] == motd_lines@[j].deep_view());
                assert(pre_dv[j + 1] == pre_ml[j + 1].deep_view());
                assert(pre_dv[j + 1] == mbodies[i + 1 + j]);
            }
        }
        i += 1;
    }
    proof {
        assert(i == mbodies.len());
        assert(motd_block.take(mbodies.len() as int) =~= motd_block);
    }
    let ghost upto_motd = out.deep_view();
    out.push(
        OutLine {
            kind: FieldKind::Players,
            label: output_field_format("在线玩家"),
            body: players_body(s.players_online, s.players_maximum),
        },
    );
    proof {
        assert(out.deep_view() =~~= upto_motd.push(
            OutLineView {
                kind: FieldKind::Players,
                label: field_label_spec("在线玩家"@),
                body: players_body_spec(s.players_online as int, s.players_maximum as int),
            },
        ));
    }
    let ghost upto_players = out.deep_view();
    let ghost map_block: Seq<OutLineView> = match &s.map {
        Some(m) => seq![
            OutLineView {
                kind: FieldKind::MapName,
                label: field_label_spec("地图"@),
                body: decode_legacy_spec(m@),
            },
        ],
        None => Seq::empty(),
    };
    match &s.map {
        Some(m) => {
            out.push(
                OutLine {
                    kind: FieldKind::MapName,
                    label: output_field_format("地图"),
                    body: decode_legacy(m.as_str()),
                },
            );
            proof {
                assert(out.deep_view() =~~= upto_players + map_block);
            }
        },
        None => {
            proof {
                assert(out.deep_view() =~~= upto_players + map_block);
            }
        },
    }
    let ghost upto_map = out.deep_view();
    let ghost gm_block: Seq<OutLineView> = match &s.game_mode {
        Some(g) => seq![
            OutLineView {
                kind: FieldKind::GameMode,
                label: field_label_spec("游戏模式"@),
                body: seq![plain_seg(g@)],
            },
        ],
        None => Seq::empty(),
    };
    match &s.game_mode {
        Some(g) => {
            let mut body: Vec<StyledSegment> = Vec::new();
            body.push(StyledSegment { text: g.clone(), color: None, styles: StyleSet::empty() });
            out.push(
                OutLine {
                    kind: FieldKind::GameMode,
                    label: output_field_format("游戏模式"),
                    body,
                },
            );
            proof {
                assert(out.deep_view() =~~= upto_map + gm_block);
            }
        },
        None => {
            proof {
                assert(out.deep_view() =~~= upto_map + gm_block);
            }
        },
    }
    let ghost before_players = out.deep_view();
    match &s.players {
        Some(ps) => {
            let ghost pblock = Seq::new(
                ps.deep_view().len(),
                |i: int|
                    OutLineView {
                        kind: FieldKind::PlayerList,
                        label: field_label_spec(
                            if i == 0 {
                                "玩家列表"@
                            } else {
                                ""@
                            },
                        ),
                        body: decode_legacy_spec(ps.deep_view()[i]),
                    },
            );
            let plen = ps.len();
            let mut p: usize = 0;
            proof {
                assert(before_players + pblock.take(0) =~= before_players);
            }
            while p < plen
                invariant
                    plen == ps@.len(),
                    p <= plen,
                    pblock == Seq::new(
                        ps.deep_view().len(),
                        |i: int|
                            OutLineView {
                                kind: FieldKind::PlayerList,
                                label: field_label_spec(
                                    if i == 0 {
                                        "玩家列表"@
                                    } else {
                                        ""@
                                    },
                                ),
                                body: decode_legacy_spec(ps.deep_view()[i]),
                            },
                    ),
                    pblock.len() == plen,
                    forall|j: int| 0 <= j < plen ==> ps.deep_view()[j] == ps@[j]@,
                    out.deep_view() == before_players + pblock.take(p as int),
                decreases plen - p,
            {
                let label = if p == 0 {
                    output_field_format("玩家列表")
                } else {
                    output_field_format("")
                };
                let ghost pre = out.deep_view();
                out.push(
                    OutLine {
                        kind: FieldKind::PlayerList,
                        label,
                        body: decode_legacy(ps[p].as_str()),
                    },
                );
                proof {
                    assert(out.deep_view() =~~= pre.push(pblock[p as int]));
                    assert(pblock.take(p as int).push(pblock[p as int]) =~= pblock.take(
                        p as int + 1,
                    ));
                    assert(out.deep_view() =~= before_players + pblock.take(p as int + 1));
                }
                p += 1;
            }
            proof {
                assert(pblock.take(plen as int) =~= pblock);
            }
        },
        None => {},
    }
    proof {
        assert(out.deep_view() =~~= java_motd_lines_spec(*s));
    }
    out
}

/// The labeled lines a Bedrock report shows, in fixed field order: version,
/// the decoded name, player counts, then map, game mode and player list
/// where present.  The first player name is shown verbatim; every further
/// one is decoded, as the legacy path does.
pub open spec fn bedrock_motd_lines_spec(s: BedrockStatus) -> Seq<OutLineView> {
    let version_line = OutLineView {
        kind: FieldKind::Version,
        label: field_label_spec("基岩版"@),
        body: seq![plain_seg(s.version_name@), plain_seg("("@ + s.protocol_version@ + ")"@)],
    };
    let motd_line = OutLineView {
        kind: FieldKind::Motd,
        label: field_label_spec("Motd"@),
        body: decode_legacy_spec(s.name@),
    };
    let players_line = OutLineView {
        kind: FieldKind::Players,
        label: field_label_spec("在线玩家"@),
        body: players_body_spec(s.players_online as int, s.players_maximum as int),
    };
    let map_lines = match s.map {
        Some(m) => seq![
            OutLineView {
                kind: FieldKind::MapName,
                label: field_label_spec("地图"@),
                body: decode_legacy_spec(m@),
            },
        ],
        None => Seq::empty(),
    };
    let gm_lines = match s.game_mode {
        Some(g) => seq![
            OutLineView {
                kind: FieldKind::GameMode,
                label: field_label_spec("游戏模式"@),
                body: seq![plain_seg(game_mode_label_spec(g))],
            },
        ],
        None => Seq::empty(),
    };
    let player_lines = match s.players {
        Some(ps) => Seq::new(
            ps.deep_view().len(),
            |i: int|
                OutLineView {
                    kind: FieldKind::PlayerList,
                    label: field_label_spec(
                        if i == 0 {
                            "玩家列表"@
                        } else {
                            ""@
                        },
                    ),
                    body: if i == 0 {
                        seq![plain_seg(ps.deep_view()[i])]
                    } else {
                        decode_legacy_spec(ps.deep_view()[i])
                    },
                },
        ),
        None => Seq::empty(),
    };
    seq![version_line] + seq![motd_line] + seq![players_line] + map_lines + gm_lines
        + player_lines
}

/// Lays a Bedrock report out as labeled lines.
pub fn bedrock_motd_lines(s: &BedrockStatus) -> (r: Vec<OutLine>)
    ensures
        r.deep_view() == bedrock_motd_lines_spec(*s),
{
    let mut out: Vec<OutLine> = Vec::new();
    let mut vbody: Vec<StyledSegment> = Vec::new();
    vbody.push(
        StyledSegment { text: s.version_name.clone(), color: None, styles: StyleSet::empty() },
    );
    let mut paren = "(".to_owned();
    paren.append(s.protocol_version.as_str());
    paren.append(")");
    vbody.push(StyledSegment { text: paren, color: None, styles: StyleSet::empty() });
    out.push(
        OutLine { kind: FieldKind::Version, label: output_field_format("基岩版"), body: vbody },
    );
    out.push(
        OutLine {
            kind: FieldKind::Motd,
            label: output_field_format("Motd"),
            body: decode_legacy(s.name.as_str()),
        },
    );
    out.push(
        OutLine {
            kind: FieldKind::Players,
            label: output_field_format("在线玩家"),
            body: players_body(s.players_online, s.players_maximum),
        },
    );
    match &s.map {
        Some(m) => {
            out.push(
                OutLine {
                    kind: FieldKind::MapName,
                    label: output_field_format("地图"),
                    body: decode_legacy(m.as_str()),
                },
            );
        },
        None => {},
    }
    match &s.game_mode {
        Some(g) => {
            let mut body: Vec<StyledSegment> = Vec::new();
            body.push(
                StyledSegment { text: game_mode_label(*g), color: None, styles: StyleSet::empty() },
            );
            out.push(
                OutLine {
                    kind: FieldKind::GameMode,
                    label: output_field_format("游戏模式"),
                    body,
                },
            );
        },
        None => {},
    }
    let ghost before_players = out.deep_view();
    match &s.players {
        Some(ps) => {
            let ghost pblock = Seq::new(
                ps.deep_view().len(),
                |i: int|
                    OutLineView {
                        kind: FieldKind::PlayerList,
                        label: field_label_spec(
                            if i == 0 {
                                "玩家列表"@
                            } else {
                                ""@
                            },
                        ),
                        body: if i == 0 {
                            seq![plain_seg(ps.deep_view()[i])]
                        } else {
                            decode_legacy_spec(ps.deep_view()[i])
                        },
                    },
            );
            let plen = ps.len();
            let mut p: usize = 0;
            proof {
                assert(before_players + pblock.take(0) =~= before_players);
            }
            while p < plen
                invariant
                    plen == ps@.len(),
                    p <= plen,
                    pblock == Seq::new(
                        ps.deep_view().len(),
                        |i: int|
                            OutLineView {
                                kind: FieldKind::PlayerList,
                                label: field_label_spec(
                                    if i == 0 {
                                        "玩家列表"@
                                    } else {
                                        ""@
                                    },
                                ),
                                body: if i == 0 {
                                    seq![plain_seg(ps.deep_view()[i])]
                                } else {
                                    decode_legacy_spec(ps.deep_view()[i])
                                },
                            },
                    ),
                    pblock.len() == plen,
                    forall|j: int| 0 <= j < plen ==> ps.deep_view()[j] == ps@[j]@,
                    out.deep_view() == before_players + pblock.take(p as int),
                decreases plen - p,
            {
                let label = if p == 0 {
                    output_field_format("玩家列表")
                } else {
                    output_field_format("")
                };
                let body: Vec<StyledSegment> = if p == 0 {
                    let mut b: Vec<StyledSegment> = Vec::new();
                    b.push(
                        StyledSegment {
                            text: ps[p].clone(),
                            color: None,
                            styles: StyleSet::empty(),
                        },
                    );
                    b
                } else {
                    decode_legacy(ps[p].as_str())
                };
                let ghost pre = out.deep_view();
                out.push(OutLine { kind: FieldKind::PlayerList, label, body });
                proof {
                    assert(out.deep_view() =~~= pre.push(pblock[p as int]));
                    assert(pblock.take(p as int).push(pblock[p as int]) =~= pblock.take(
                        p as int + 1,
                    ));
                    assert(out.deep_view() =~= before_players + pblock.take(p as int + 1));
                }
                p += 1;
            }
            proof {
                assert(pblock.take(plen as int) =~= pblock);
            }
        },
        None => {},
    }
    proof {
        assert(out.deep_view() =~~= bedrock_motd_lines_spec(*s));
    }
    out
}

} // verus!
