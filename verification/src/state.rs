//! A state machine that walks a line of characters and turns comments into
//! token spans.
//!
//! The machine is in one of a few states (`Start`, `Comment`,
//! `MultiLineComment`, `End`), each of which holds the characters that are
//! still to be read, the character under the cursor and the one after it.
//! `StateMachineWrapper::step` moves it from one state to the next.
//!
//! Every state has a mathematical model (`MachineModel`); the transitions are
//! specified over those models, and the laws of the machine are proved on
//! them.

use vstd::prelude::*;

use crate::text::string_push;
use crate::token::{Location, Token, TokenSpan};

verus! {

// ---------------------------------------------------------------------------
// The models
// ---------------------------------------------------------------------------

/// What a `CharSpan` stands for: a character and where it was read.
pub struct SpanModel {
    pub location: Location,
    pub ch: char,
}

/// What a `TokenSpan` stands for: where it starts and ends, and, when its
/// token is a comment, the comment's text.
pub struct TokenSpanModel {
    pub start: Location,
    pub end: Location,
    pub comment: Option<Seq<char>>,
}

/// What a `StateMachineWrapper` stands for.
///
/// `this` is the character under the cursor, `next` the one after it,
/// `rest` the characters that the state holds as still to be read,
/// `comment` the characters of the comment read so far, and `emitted` the
/// token spans recorded so far.
pub enum MachineModel {
    New,
    Start {
        this: SpanModel,
        next: Option<SpanModel>,
        rest: Seq<char>,
        emitted: Seq<TokenSpanModel>,
    },
    Comment {
        comment: Seq<SpanModel>,
        this: SpanModel,
        next: Option<SpanModel>,
        rest: Seq<char>,
        emitted: Seq<TokenSpanModel>,
    },
    MultiLineComment {
        comment: Seq<SpanModel>,
        this: SpanModel,
        next: Option<SpanModel>,
        rest: Seq<char>,
        emitted: Seq<TokenSpanModel>,
    },
    End { emitted: Seq<TokenSpanModel> },
}

/// The characters of a sequence of spans.
pub open spec fn span_chars(spans: Seq<SpanModel>) -> Seq<char> {
    spans.map_values(|s: SpanModel| s.ch)
}

/// The value of a `/* */` comment whose characters, up to and including the
/// closing `*`, are `comment`: what stands between the `/*` and the `*/`
/// markers (nothing, where the `*` of `/*` is also that of `*/`).
pub open spec fn multi_line_value(comment: Seq<SpanModel>) -> Seq<char> {
    if comment.len() >= 3 {
        span_chars(comment).subrange(2, comment.len() - 1)
    } else {
        Seq::empty()
    }
}

/// The token span that a finished `/* */` comment becomes: it runs from the
/// first to the last of the comment's characters and holds the comment's
/// value, markers left out.
pub open spec fn comment_token(comment: Seq<SpanModel>) -> TokenSpanModel {
    TokenSpanModel {
        start: comment[0].location,
        end: comment.last().location,
        comment: Some(multi_line_value(comment)),
    }
}

/// The token span of a `//` comment: from its first to its last character,
/// holding all of the comment's characters as they were read.
pub open spec fn line_comment_token(comment: Seq<SpanModel>) -> TokenSpanModel {
    TokenSpanModel {
        start: comment[0].location,
        end: comment.last().location,
        comment: Some(span_chars(comment)),
    }
}

/// The character at `location` is `rest[0]`, and the one after it, one
/// column to the right, is `rest[1]` where there is one.
pub open spec fn spans_at(location: Location, rest: Seq<char>) -> (SpanModel, Option<SpanModel>) {
    (
        SpanModel { location, ch: rest[0] },
        if rest.len() > 1 {
            Some(SpanModel { location: location.next_column(), ch: rest[1] })
        } else {
            None
        },
    )
}

/// The model of the state in which `Start::new` puts a line.
pub open spec fn initial_model(line_num: usize, buffer: Seq<char>) -> MachineModel {
    let (this, next) = spans_at(Location { line: line_num, column: 1 }, buffer);
    MachineModel::Start { this, next, rest: buffer.drop_first(), emitted: Seq::empty() }
}

/// From `Start` into `Comment` (on `//`): the comment holds the first `/`;
/// the cursor moves to the second one but keeps the first one's location, and
/// the characters still to be read are left as they were.
pub open spec fn enter_comment(m: MachineModel) -> MachineModel {
    match m {
        MachineModel::Start { this, rest, emitted, .. } => {
            let (t, n) = spans_at(this.location, rest);
            MachineModel::Comment { comment: seq![this], this: t, next: n, rest, emitted }
        },
        _ => m,
    }
}

/// From `Start` into `MultiLineComment` (on `/*`): the comment holds the `/`
/// and the cursor moves one character to the right.
pub open spec fn enter_multi_line(m: MachineModel) -> MachineModel {
    match m {
        MachineModel::Start { this, rest, emitted, .. } => {
            let (t, n) = spans_at(this.location.next_column(), rest);
            MachineModel::MultiLineComment {
                comment: seq![this],
                this: t,
                next: n,
                rest: rest.drop_first(),
                emitted,
            }
        },
        _ => m,
    }
}

/// Inside a multi-line comment: the character under the cursor joins the
/// comment and the cursor moves one character to the right.
pub open spec fn append_model(m: MachineModel) -> MachineModel {
    match m {
        MachineModel::MultiLineComment { comment, this, rest, emitted, .. } => {
            let (t, n) = spans_at(this.location.next_column(), rest);
            MachineModel::MultiLineComment {
                comment: comment.push(this),
                this: t,
                next: n,
                rest: rest.drop_first(),
                emitted,
            }
        },
        _ => m,
    }
}

/// Closing a multi-line comment: the character under the cursor joins the
/// comment, the comment is recorded as a token span, and the machine goes
/// back to `Start` one character to the right.
pub open spec fn finish_model(m: MachineModel) -> MachineModel {
    match m {
        MachineModel::MultiLineComment { comment, this, rest, emitted, .. } => {
            let (t, n) = spans_at(this.location.next_column(), rest);
            MachineModel::Start {
                this: t,
                next: n,
                rest: rest.drop_first(),
                emitted: emitted.push(comment_token(comment.push(this))),
            }
        },
        _ => m,
    }
}

/// Whether `step` is defined on a state (elsewhere it does not return).
pub open spec fn can_step(m: MachineModel) -> bool {
    match m {
        MachineModel::New => true,
        MachineModel::Start { this, next, .. } => {
            &&& this.ch == '/'
            &&& next is Some
            &&& (next.unwrap().ch == '/' || next.unwrap().ch == '*')
        },
        MachineModel::MultiLineComment { this, next, .. } => this.ch == '\n' || next is Some,
        MachineModel::Comment { .. } => false,
        MachineModel::End { .. } => false,
    }
}

/// One step of the machine, on the states where it is defined.
pub open spec fn spec_step(m: MachineModel) -> MachineModel {
    match m {
        MachineModel::New => MachineModel::New,
        MachineModel::Start { next, .. } => {
            if next.unwrap().ch == '/' {
                enter_comment(m)
            } else {
                enter_multi_line(m)
            }
        },
        MachineModel::MultiLineComment { this, next, .. } => {
            if this.ch == '*' {
                if next.unwrap().ch == '/' {
                    finish_model(m)
                } else {
                    append_model(m)
                }
            } else if this.ch == '\n' {
                MachineModel::End { emitted: Seq::empty() }
            } else {
                append_model(m)
            }
        },
        _ => m,
    }
}

/// `next` is the character after `this`, one column to the right, exactly
/// when there is a character left to read.
pub open spec fn next_ok(this: SpanModel, next: Option<SpanModel>, rest: Seq<char>) -> bool {
    match next {
        None => rest.len() == 0,
        Some(n) => rest.len() > 0 && n.ch == rest[0] && n.location == this.location.next_column(),
    }
}

/// The columns of the characters still to be read fit in a `usize`.
pub open spec fn fits(this: SpanModel, rest: Seq<char>) -> bool {
    this.location.column + rest.len() <= usize::MAX
}

/// The characters of the comment stand on the line of the cursor, in the
/// columns just before it.
pub open spec fn comment_ok(comment: Seq<SpanModel>, this: SpanModel) -> bool {
    &&& comment.len() > 0
    &&& forall|i: int|
        0 <= i < comment.len() ==> (#[trigger] comment[i]).location.line == this.location.line
            && comment[i].location.column + (comment.len() - i) == this.location.column
}

/// The columns of a recorded comment: it stands on one line and runs from
/// its `/` to the `*` of its closing `*/`, so that it is three columns wider
/// than its value (two, with an empty value, where `/*/` closes it).
pub open spec fn span_width_ok(t: TokenSpanModel) -> bool {
    &&& t.comment is Some
    &&& t.start.line == t.end.line
    &&& (t.end.column + 1 == t.start.column + t.comment.unwrap().len() + 3 || (
    t.comment.unwrap().len() == 0 && t.end.column == t.start.column + 1))
}

/// Every recorded span holds a comment whose columns fit its value.
pub open spec fn emitted_ok(emitted: Seq<TokenSpanModel>) -> bool {
    forall|i: int| 0 <= i < emitted.len() ==> span_width_ok(#[trigger] emitted[i])
}

/// What `step` and the transitions need of a state: the character after the
/// cursor is the first one still to be read, and the columns fit in a
/// `usize`.
pub open spec fn lookahead_ok(m: MachineModel) -> bool {
    match m {
        MachineModel::Start { this, next, rest, .. } => {
            &&& next_ok(this, next, rest)
            &&& fits(this, rest)
        },
        MachineModel::Comment { this, next, rest, .. } => {
            &&& rest.len() > 0
            &&& this.ch == rest[0]
            &&& next_ok(this, next, rest.drop_first())
            &&& fits(this, rest)
        },
        MachineModel::MultiLineComment { this, next, rest, .. } => {
            &&& next_ok(this, next, rest)
            &&& fits(this, rest)
        },
        _ => true,
    }
}

/// The invariant of the machine: the look-ahead is consistent, the comment
/// read so far stands just before the cursor, and the recorded spans fit
/// their values.
pub open spec fn machine_wf(m: MachineModel) -> bool {
    &&& lookahead_ok(m)
    &&& match m {
        MachineModel::New => true,
        MachineModel::Start { emitted, .. } => emitted_ok(emitted),
        MachineModel::Comment { comment, this, emitted, .. } => {
            &&& comment.len() == 1
            &&& comment[0].location == this.location
            &&& emitted_ok(emitted)
        },
        MachineModel::MultiLineComment { comment, this, emitted, .. } => {
            &&& comment_ok(comment, this)
            &&& emitted_ok(emitted)
        },
        MachineModel::End { emitted } => emitted_ok(emitted),
    }
}

/// A measure that every defined step, but that of `New`, makes smaller.
pub open spec fn measure(m: MachineModel) -> nat {
    match m {
        MachineModel::Start { rest, .. } => rest.len() + 1,
        MachineModel::MultiLineComment { rest, .. } => rest.len() + 1,
        _ => 0,
    }
}

/// The recorded spans of a state.
pub open spec fn emitted_of(m: MachineModel) -> Seq<TokenSpanModel> {
    match m {
        MachineModel::Start { emitted, .. } => emitted,
        MachineModel::Comment { emitted, .. } => emitted,
        MachineModel::MultiLineComment { emitted, .. } => emitted,
        MachineModel::End { emitted } => emitted,
        MachineModel::New => Seq::empty(),
    }
}

/// The line of the cursor and the column one past the last character still
/// to be read.
pub open spec fn horizon(m: MachineModel) -> (usize, int) {
    match m {
        MachineModel::Start { this, rest, .. } => (
            this.location.line,
            this.location.column + rest.len(),
        ),
        MachineModel::Comment { this, rest, .. } => (
            this.location.line,
            this.location.column + rest.len(),
        ),
        MachineModel::MultiLineComment { this, rest, .. } => (
            this.location.line,
            this.location.column + rest.len(),
        ),
        _ => (0, 0),
    }
}

/// Whether the machine, stepped from `m` again and again, reaches `End`
/// (rather than a state on which `step` is not defined).
pub open spec fn run_ok(m: MachineModel) -> bool
    decreases measure(m),
{
    match m {
        MachineModel::End { .. } => true,
        MachineModel::New => false,
        MachineModel::Comment { .. } => false,
        _ => {
            if lookahead_ok(m) && can_step(m) {
                proof {
                    law_step_progress(m);
                }
                run_ok(spec_step(m))
            } else {
                false
            }
        },
    }
}

/// The first `End` state that the machine, stepped from `m` again and
/// again, reaches (where `run_ok(m)` holds).
pub open spec fn run_end(m: MachineModel) -> MachineModel
    decreases measure(m),
{
    match m {
        MachineModel::Start { .. } | MachineModel::MultiLineComment { .. } => {
            if lookahead_ok(m) && can_step(m) {
                proof {
                    law_step_progress(m);
                }
                run_end(spec_step(m))
            } else {
                m
            }
        },
        _ => m,
    }
}

/// Column `location.column` of the line `s` holds `ch` (columns count from
/// one).
pub open spec fn stands_at(s: Seq<char>, location: Location, ch: char) -> bool {
    1 <= location.column <= s.len() && s[location.column - 1] == ch
}

/// The recorded span `t` is a `/* */` comment of line `line_num`, whose
/// characters are `s`: the line holds `/*` at its start and `*/` at its end
/// (its end being the `*`), and the value is what stands between the two
/// markers.
pub open spec fn recorded_in(t: TokenSpanModel, line_num: usize, s: Seq<char>) -> bool {
    &&& t.start.line == line_num
    &&& 1 <= t.start.column
    &&& t.start.column < t.end.column < s.len()
    &&& s[t.start.column - 1] == '/'
    &&& s[t.start.column as int] == '*'
    &&& s[t.end.column - 1] == '*'
    &&& s[t.end.column as int] == '/'
    &&& t.comment == Some(
        if t.end.column >= t.start.column + 2 {
            s.subrange(t.start.column + 1, t.end.column - 1)
        } else {
            Seq::<char>::empty()
        },
    )
}

/// Every recorded span is a comment of the line.
pub open spec fn all_recorded_in(
    emitted: Seq<TokenSpanModel>,
    line_num: usize,
    s: Seq<char>,
) -> bool {
    forall|i: int| 0 <= i < emitted.len() ==> recorded_in(#[trigger] emitted[i], line_num, s)
}

/// The state `m` is one that the machine reaches on line `line_num`, whose
/// characters are `s`: the cursor and the comment read so far stand where
/// the line holds their characters, the characters still to be read are
/// those after the cursor, and the recorded spans are comments of the line.
pub open spec fn agrees(m: MachineModel, line_num: usize, s: Seq<char>) -> bool {
    match m {
        MachineModel::New => true,
        MachineModel::Start { this, rest, emitted, .. } => {
            &&& this.location.line == line_num
            &&& stands_at(s, this.location, this.ch)
            &&& rest == s.subrange(this.location.column as int, s.len() as int)
            &&& all_recorded_in(emitted, line_num, s)
        },
        MachineModel::Comment { comment, this, rest, emitted, .. } => {
            &&& this.location.line == line_num
            &&& comment[0].ch == '/'
            &&& stands_at(s, comment[0].location, '/')
            &&& rest == s.subrange(this.location.column as int, s.len() as int)
            &&& all_recorded_in(emitted, line_num, s)
        },
        MachineModel::MultiLineComment { comment, this, rest, emitted, .. } => {
            &&& this.location.line == line_num
            &&& stands_at(s, this.location, this.ch)
            &&& rest == s.subrange(this.location.column as int, s.len() as int)
            &&& comment[0].ch == '/'
            &&& comment[0].location.column < s.len()
            &&& s[comment[0].location.column as int] == '*'
            &&& forall|i: int|
                0 <= i < comment.len() ==> stands_at(
                    s,
                    (#[trigger] comment[i]).location,
                    comment[i].ch,
                )
            &&& all_recorded_in(emitted, line_num, s)
        },
        MachineModel::End { emitted } => all_recorded_in(emitted, line_num, s),
    }
}

// ---------------------------------------------------------------------------
// Laws of the model
// ---------------------------------------------------------------------------

/// Every defined step from a state other than `New` makes the measure
/// smaller, so that a run of the machine ends.
pub proof fn law_step_progress(m: MachineModel)
    requires
        lookahead_ok(m),
        can_step(m),
        !(m is New),
    ensures
        measure(spec_step(m)) < measure(m),
{
}

/// Every span recorded in a well-formed state holds a comment that stands on
/// one line and runs from its `/` to the `*` of its `*/`: three columns more
/// than its value, or two with an empty value where `/*/` closes it.
pub proof fn law_recorded_spans_cover_their_text(m: MachineModel, i: int)
    requires
        machine_wf(m),
        0 <= i < emitted_of(m).len(),
    ensures
        emitted_of(m)[i].comment is Some,
        emitted_of(m)[i].start.line == emitted_of(m)[i].end.line,
        emitted_of(m)[i].end.column + 1 == emitted_of(m)[i].start.column
            + emitted_of(m)[i].comment.unwrap().len() + 3 || (
        emitted_of(m)[i].comment.unwrap().len() == 0 && emitted_of(m)[i].end.column
            == emitted_of(m)[i].start.column + 1),
{
    assert(emitted_ok(emitted_of(m)));
    assert(span_width_ok(emitted_of(m)[i]));
}

/// A defined step keeps the look-ahead consistent.
pub proof fn law_step_keeps_lookahead(m: MachineModel)
    requires
        lookahead_ok(m),
        can_step(m),
    ensures
        lookahead_ok(spec_step(m)),
{
}

/// A defined step keeps the invariant of the machine.
pub proof fn law_step_keeps_wf(m: MachineModel)
    requires
        machine_wf(m),
        can_step(m),
    ensures
        machine_wf(spec_step(m)),
{
    law_step_keeps_lookahead(m);
    match m {
        MachineModel::MultiLineComment { comment, this, next, rest, emitted } => {
            if this.ch == '*' && next.unwrap().ch == '/' {
                let c2 = comment.push(this);
                let tok = comment_token(c2);
                assert(c2[c2.len() - 1] == this);
                assert(c2[0] == comment[0]);
                assert(c2[0].location.column + c2.len() == this.location.column + 1);
                if c2.len() >= 3 {
                    assert(multi_line_value(c2).len() == c2.len() - 3);
                }
                assert(span_width_ok(tok));
                assert forall|i: int| 0 <= i < emitted.push(tok).len() implies span_width_ok(
                    #[trigger] emitted.push(tok)[i],
                ) by {
                    if i < emitted.len() {
                        assert(emitted.push(tok)[i] == emitted[i]);
                    }
                }
            } else if this.ch != '\n' {
                let c2 = comment.push(this);
                let t2 = spans_at(this.location.next_column(), rest).0;
                assert forall|i: int| 0 <= i < c2.len() implies (#[trigger] c2[i]).location.line
                    == t2.location.line && c2[i].location.column + (c2.len() - i)
                    == t2.location.column by {
                    if i < comment.len() {
                        assert(c2[i] == comment[i]);
                    }
                }
            }
        },
        _ => {},
    }
}

/// Closing a comment records it as a comment of the line: `/*` at its
/// start, `*/` at its end, and as value what stands between them.
proof fn lemma_finish_records_comment(m: MachineModel, line_num: usize, s: Seq<char>)
    requires
        m is MultiLineComment,
        machine_wf(m),
        can_step(m),
        agrees(m, line_num, s),
        m->MultiLineComment_this.ch == '*',
        m->MultiLineComment_next.unwrap().ch == '/',
    ensures
        recorded_in(
            comment_token(m->MultiLineComment_comment.push(m->MultiLineComment_this)),
            line_num,
            s,
        ),
{
    let comment = m->MultiLineComment_comment;
    let this = m->MultiLineComment_this;
    let rest = m->MultiLineComment_rest;
    let c2 = comment.push(this);
    let t = comment_token(c2);
    let start = comment[0].location.column;
    let end = this.location.column;
    assert(c2[0] == comment[0]);
    assert(c2[c2.len() - 1] == this);
    assert(comment[0].location.column + comment.len() == this.location.column);
    assert(rest.len() > 0);
    assert(rest[0] == s[end as int]);
    if c2.len() >= 3 {
        let v = multi_line_value(c2);
        let w = s.subrange(start + 1, end - 1);
        assert forall|j: int| 0 <= j < v.len() implies v[j] == w[j] by {
            assert(c2[j + 2] == comment[j + 2]);
            assert(comment[j + 2].location.column + (comment.len() - (j + 2)) == end);
            assert(stands_at(s, comment[j + 2].location, comment[j + 2].ch));
        }
        assert(v =~= w);
    }
}

/// A step that does not end the machine keeps it in agreement with its
/// line: no character is lost, moved or made up, and every comment it
/// records is `/*` value `*/` as the line holds it.
pub proof fn law_step_agrees_with_line(m: MachineModel, line_num: usize, s: Seq<char>)
    requires
        machine_wf(m),
        can_step(m),
        agrees(m, line_num, s),
        !(spec_step(m) is End),
    ensures
        agrees(spec_step(m), line_num, s),
{
    match m {
        MachineModel::Start { this, next, rest, emitted } => {
            assert(rest[0] == s[this.location.column as int]);
            if next.unwrap().ch != '/' {
                assert(rest.drop_first() =~= s.subrange(
                    this.location.column + 1,
                    s.len() as int,
                ));
            }
        },
        MachineModel::MultiLineComment { comment, this, next, rest, emitted } => {
            assert(rest[0] == s[this.location.column as int]);
            assert(rest.drop_first() =~= s.subrange(this.location.column + 1, s.len() as int));
            let c2 = comment.push(this);
            if this.ch == '*' && next.unwrap().ch == '/' {
                lemma_finish_records_comment(m, line_num, s);
                let tok = comment_token(c2);
                assert forall|i: int| 0 <= i < emitted.push(tok).len() implies recorded_in(
                    #[trigger] emitted.push(tok)[i],
                    line_num,
                    s,
                ) by {
                    if i < emitted.len() {
                        assert(emitted.push(tok)[i] == emitted[i]);
                    }
                }
            } else {
                assert(c2[0] == comment[0]);
                assert forall|i: int| 0 <= i < c2.len() implies stands_at(
                    s,
                    (#[trigger] c2[i]).location,
                    c2[i].ch,
                ) by {
                    if i < comment.len() {
                        assert(c2[i] == comment[i]);
                    }
                }
            }
        },
        _ => {},
    }
}

/// A step that does not end the machine keeps the cursor on its line and
/// keeps the column one past the last character to be read: the cursor
/// moves one column to the right for each character it consumes.
pub proof fn law_step_keeps_horizon(m: MachineModel)
    requires
        lookahead_ok(m),
        can_step(m),
        !(spec_step(m) is End),
    ensures
        horizon(spec_step(m)) == horizon(m),
{
}

/// A run that reaches `End` records no span there: the only step into
/// `End`, on a new line inside a comment, starts it with none.
pub proof fn law_run_records_nothing(m: MachineModel)
    requires
        run_ok(m),
        !(m is End),
    ensures
        run_end(m) is End,
        emitted_of(run_end(m)).len() == 0,
    decreases measure(m),
{
    law_step_progress(m);
    let r = spec_step(m);
    if !(r is End) {
        law_run_records_nothing(r);
    }
}

/// The first span of the initial state is the first character of the line,
/// in column one; the invariant holds there, and the state agrees with the
/// line.
pub proof fn law_initial_wf(line_num: usize, buffer: Seq<char>)
    requires
        0 < buffer.len() <= usize::MAX,
    ensures
        machine_wf(initial_model(line_num, buffer)),
        agrees(initial_model(line_num, buffer), line_num, buffer),
        horizon(initial_model(line_num, buffer)) == (line_num, buffer.len() as int),
{
    assert(buffer.drop_first() =~= buffer.subrange(1, buffer.len() as int));
}

/// The machine starts a line on its first character, in column one: the
/// cursor holds `buffer[0]` at column 1 of line `line_num`, the character
/// after it is `buffer[1]` at column 2 (where there is one), everything
/// after the first character is still to be read, and nothing is recorded.
pub proof fn law_start_at_first_character(line_num: usize, buffer: Seq<char>)
    requires
        buffer.len() > 0,
    ensures
        initial_model(line_num, buffer) is Start,
        initial_model(line_num, buffer)->Start_this == (SpanModel {
            location: Location { line: line_num, column: 1 },
            ch: buffer[0],
        }),
        buffer.len() > 1 ==> initial_model(line_num, buffer)->Start_next == Some(
            SpanModel { location: Location { line: line_num, column: 2 }, ch: buffer[1] },
        ),
        buffer.len() == 1 ==> initial_model(line_num, buffer)->Start_next is None,
        initial_model(line_num, buffer)->Start_rest == buffer.drop_first(),
        initial_model(line_num, buffer)->Start_emitted.len() == 0,
{
}

/// Inside a `/* */` comment, a step on any character but a new line, that
/// does not close the comment (`*` followed by `/`), keeps the machine in the
/// comment: the character joins the end of the comment, the cursor moves one
/// column to the right onto the next character, and the recorded spans stay
/// as they were.
pub proof fn law_comment_character_joins(m: MachineModel)
    requires
        m is MultiLineComment,
        lookahead_ok(m),
        can_step(m),
        m->MultiLineComment_this.ch != '\n',
        !(m->MultiLineComment_this.ch == '*' && m->MultiLineComment_next.unwrap().ch == '/'),
    ensures
        spec_step(m) is MultiLineComment,
        spec_step(m)->MultiLineComment_comment == m->MultiLineComment_comment.push(
            m->MultiLineComment_this,
        ),
        spec_step(m)->MultiLineComment_this.ch == m->MultiLineComment_rest[0],
        spec_step(m)->MultiLineComment_this.location.line
            == m->MultiLineComment_this.location.line,
        spec_step(m)->MultiLineComment_this.location.column
            == m->MultiLineComment_this.location.column + 1,
        spec_step(m)->MultiLineComment_rest == m->MultiLineComment_rest.drop_first(),
        spec_step(m)->MultiLineComment_emitted == m->MultiLineComment_emitted,
{
}

/// The machine ends only on a new line inside a `/* */` comment, and ends
/// there always, with nothing recorded.
pub proof fn law_end_only_on_new_line(m: MachineModel)
    requires
        lookahead_ok(m),
        can_step(m),
    ensures
        (spec_step(m) is End) <==> (m is MultiLineComment && m->MultiLineComment_this.ch == '\n'),
        spec_step(m) is End ==> spec_step(m)->End_emitted.len() == 0,
{
}

/// `/` followed by `*` opens a `/* */` comment that holds the `/`, with the
/// cursor on the `*`, one column to the right; `/` followed by `/` opens a
/// `//` comment that holds the first `/`, with the cursor on the second one,
/// where the first one stood. Recorded spans stay as they were.
pub proof fn law_slash_opens_comment(m: MachineModel)
    requires
        m is Start,
        lookahead_ok(m),
        can_step(m),
    ensures
        m->Start_next.unwrap().ch == '*' ==> {
            &&& spec_step(m) is MultiLineComment
            &&& spec_step(m)->MultiLineComment_comment == seq![m->Start_this]
            &&& spec_step(m)->MultiLineComment_this.ch == '*'
            &&& spec_step(m)->MultiLineComment_this.location.line == m->Start_this.location.line
            &&& spec_step(m)->MultiLineComment_this.location.column
                == m->Start_this.location.column + 1
            &&& spec_step(m)->MultiLineComment_rest == m->Start_rest.drop_first()
            &&& spec_step(m)->MultiLineComment_emitted == m->Start_emitted
        },
        m->Start_next.unwrap().ch == '/' ==> {
            &&& spec_step(m) is Comment
            &&& spec_step(m)->Comment_comment == seq![m->Start_this]
            &&& spec_step(m)->Comment_this.ch == '/'
            &&& spec_step(m)->Comment_this.location == m->Start_this.location
            &&& spec_step(m)->Comment_rest == m->Start_rest
            &&& spec_step(m)->Comment_emitted == m->Start_emitted
        },
{
}

/// `*` followed by `/` closes a `/* */` comment: the machine goes back to
/// `Start` with the cursor on the `/`, one column to the right, and records
/// one more span, running from the comment's first character to the `*`,
/// whose value is the comment's characters after the `/*` (the `*` left
/// out); the spans recorded before stay as they were.
pub proof fn law_star_slash_closes_comment(m: MachineModel)
    requires
        m is MultiLineComment,
        machine_wf(m),
        can_step(m),
        m->MultiLineComment_this.ch == '*',
        m->MultiLineComment_next.unwrap().ch == '/',
    ensures
        spec_step(m) is Start,
        spec_step(m)->Start_this.ch == '/',
        spec_step(m)->Start_this.location.column == m->MultiLineComment_this.location.column + 1,
        spec_step(m)->Start_rest == m->MultiLineComment_rest.drop_first(),
        spec_step(m)->Start_emitted.len() == m->MultiLineComment_emitted.len() + 1,
        spec_step(m)->Start_emitted.drop_last() == m->MultiLineComment_emitted,
        spec_step(m)->Start_emitted.last().start == m->MultiLineComment_comment[0].location,
        spec_step(m)->Start_emitted.last().end == m->MultiLineComment_this.location,
        m->MultiLineComment_comment.len() >= 2 ==> spec_step(m)->Start_emitted.last().comment
            == Some(
            m->MultiLineComment_comment.map_values(|s: SpanModel| s.ch).subrange(
                2,
                m->MultiLineComment_comment.len() as int,
            ),
        ),
        m->MultiLineComment_comment.len() < 2 ==> spec_step(m)->Start_emitted.last().comment
            == Some(Seq::<char>::empty()),
{
    let c = m->MultiLineComment_comment;
    let this = m->MultiLineComment_this;
    let e = m->MultiLineComment_emitted;
    let c2 = c.push(this);
    assert(e.push(comment_token(c2)).drop_last() =~= e);
    assert(c2[0] == c[0]);
    if c.len() >= 2 {
        assert(span_chars(c2).subrange(2, c2.len() - 1) =~= c.map_values(|s: SpanModel| s.ch).subrange(
            2,
            c.len() as int,
        ));
    }
}

/// No `*` and no new line in `t`.
pub open spec fn plain_text(t: Seq<char>) -> bool {
    forall|i: int| 0 <= i < t.len() ==> t[i] != '*' && t[i] != '\n'
}

proof fn lemma_plain_comment_runs_to_end(m: MachineModel, t: Seq<char>)
    requires
        m is MultiLineComment,
        lookahead_ok(m),
        plain_text(t),
        seq![m->MultiLineComment_this.ch] + m->MultiLineComment_rest == t + seq!['\n'],
    ensures
        run_ok(m),
    decreases t.len(),
{
    let this = m->MultiLineComment_this;
    let rest = m->MultiLineComment_rest;
    let whole = seq![this.ch] + rest;
    assert(whole[0] == this.ch);
    if t.len() == 0 {
        assert(this.ch == '\n');
        assert(can_step(m));
        assert(spec_step(m) is End);
        assert(run_ok(spec_step(m)));
    } else {
        assert(this.ch == t[0]);
        assert(this.ch != '*' && this.ch != '\n');
        assert(whole.len() == t.len() + 1);
        assert(rest.len() > 0);
        assert(can_step(m));
        law_step_keeps_lookahead(m);
        let r = spec_step(m);
        law_comment_character_joins(m);
        let t2 = t.drop_first();
        assert forall|i: int| 0 <= i < t2.len() implies t2[i] != '*' && t2[i] != '\n' by {
            assert(t2[i] == t[i + 1]);
        }
        assert(rest[0] == whole[1]);
        assert(seq![r->MultiLineComment_this.ch] + r->MultiLineComment_rest =~= t2 + seq!['\n']) by {
            assert(seq![rest[0]] + rest.drop_first() =~= rest);
            assert(rest =~= whole.drop_first());
            assert(whole.drop_first() =~= (t + seq!['\n']).drop_first());
            assert((t + seq!['\n']).drop_first() =~= t2 + seq!['\n']);
        }
        lemma_plain_comment_runs_to_end(r, t2);
        law_step_progress(m);
    }
}

/// A line that opens a `/* */` comment and runs to a new line with no `*`
/// (and no new line) in between runs to the end: whatever the characters
/// are, each joins the comment, and the new line ends the machine. (A `/`
/// right after the `/*` would close it at once, the `*` of `/*` serving as
/// that of `*/`.)
pub proof fn law_plain_comment_line_is_accepted(line_num: usize, t: Seq<char>)
    requires
        plain_text(t),
        t.len() == 0 || t[0] != '/',
        t.len() + 3 <= usize::MAX,
    ensures
        run_ok(initial_model(line_num, seq!['/', '*'] + t + seq!['\n'])),
{
    let b = seq!['/', '*'] + t + seq!['\n'];
    let m0 = initial_model(line_num, b);
    law_initial_wf(line_num, b);
    assert(b[0] == '/' && b[1] == '*');
    assert(b.len() == t.len() + 3);
    assert(can_step(m0));
    law_step_keeps_lookahead(m0);
    let m1 = spec_step(m0);
    assert(m1 is MultiLineComment);
    let rest1 = m1->MultiLineComment_rest;
    assert(rest1 =~= t + seq!['\n']) by {
        assert(b.drop_first().drop_first() =~= t + seq!['\n']);
    }
    assert(rest1[0] != '/') by {
        if t.len() > 0 {
            assert(rest1[0] == t[0]);
        } else {
            assert(rest1[0] == '\n');
        }
    }
    assert(can_step(m1));
    law_step_keeps_lookahead(m1);
    let m2 = spec_step(m1);
    law_comment_character_joins(m1);
    assert(seq![m2->MultiLineComment_this.ch] + m2->MultiLineComment_rest =~= t + seq!['\n']) by {
        assert(seq![rest1[0]] + rest1.drop_first() =~= rest1);
    }
    lemma_plain_comment_runs_to_end(m2, t);
    law_step_progress(m1);
    law_step_progress(m0);
    assert(run_ok(m1));
}

/// Two states that differ at most in the comment read so far and the spans
/// recorded: the cursor, the character after it and the characters still to
/// be read are the same.
pub open spec fn same_course(a: MachineModel, b: MachineModel) -> bool {
    match a {
        MachineModel::New => b is New,
        MachineModel::Start { this, next, rest, .. } => b is Start && b->Start_this == this
            && b->Start_next == next && b->Start_rest == rest,
        MachineModel::Comment { .. } => b is Comment,
        MachineModel::MultiLineComment { this, next, rest, .. } => b is MultiLineComment
            && b->MultiLineComment_this == this && b->MultiLineComment_next == next
            && b->MultiLineComment_rest == rest,
        MachineModel::End { .. } => b is End,
    }
}

/// Whether a line runs to the end does not depend on the comment read so far
/// or the spans recorded.
pub proof fn law_run_ignores_what_was_read(a: MachineModel, b: MachineModel)
    requires
        same_course(a, b),
    ensures
        run_ok(a) == run_ok(b),
    decreases measure(a),
{
    match a {
        MachineModel::Start { .. } | MachineModel::MultiLineComment { .. } => {
            assert(lookahead_ok(a) == lookahead_ok(b));
            assert(can_step(a) == can_step(b));
            if lookahead_ok(a) && can_step(a) {
                law_step_progress(a);
                law_run_ignores_what_was_read(spec_step(a), spec_step(b));
            }
        },
        _ => {},
    }
}

/// Inside a `/* */` comment, whether the line runs to the end depends on the
/// character under the cursor only through whether it is a `*` or a new
/// line: two states that differ only in that character, neither of them `*`
/// nor a new line, both run to the end or both do not.
pub proof fn law_comment_character_does_not_matter(a: MachineModel, b: MachineModel)
    requires
        a is MultiLineComment,
        b is MultiLineComment,
        a->MultiLineComment_this.location == b->MultiLineComment_this.location,
        a->MultiLineComment_next == b->MultiLineComment_next,
        a->MultiLineComment_rest == b->MultiLineComment_rest,
        a->MultiLineComment_this.ch != '*',
        a->MultiLineComment_this.ch != '\n',
        b->MultiLineComment_this.ch != '*',
        b->MultiLineComment_this.ch != '\n',
    ensures
        run_ok(a) == run_ok(b),
{
    assert(lookahead_ok(a) == lookahead_ok(b));
    assert(can_step(a) == can_step(b));
    if lookahead_ok(a) && can_step(a) {
        law_step_progress(a);
        law_step_progress(b);
        law_run_ignores_what_was_read(spec_step(a), spec_step(b));
    }
}

// ---------------------------------------------------------------------------
// The machine
// ---------------------------------------------------------------------------

/// The outside error type `failure::Error`, carried through as it is.
#[verifier::external_type_specification]
#[verifier::external_body]
pub struct ExFailureError(failure::Error);

/// The result of a parse. Tokenizing a line does not fail where it returns;
/// on the lines on which it cannot go on, `ParserFactory::parse` is not
/// defined (see `ParserFactory::accepts`).
pub type ParseResult<T> = Result<T, failure::Error>;

/// A character of the line and where it stands.
#[derive(Debug, Clone, Copy)]
pub struct CharSpan<'span> {
    pub location: Location,
    pub this_char: &'span char,
}

impl<'span> CharSpan<'span> {
    /// The character and its location.
    pub open spec fn model(self) -> SpanModel {
        SpanModel { location: self.location, ch: *self.this_char }
    }
}

/// The model of an optional span.
pub open spec fn option_model<'s>(o: Option<CharSpan<'s>>) -> Option<SpanModel> {
    match o {
        Some(s) => Some(s.model()),
        None => None,
    }
}

/// The models of a sequence of spans.
pub open spec fn spans_model<'s>(v: Seq<CharSpan<'s>>) -> Seq<SpanModel> {
    v.map_values(|s: CharSpan<'s>| s.model())
}

/// The model of a token span.
pub open spec fn token_span_model(t: TokenSpan) -> TokenSpanModel {
    TokenSpanModel {
        start: t.start,
        end: t.end,
        comment: match t.token {
            Token::Comment(s) => Some(s@),
            _ => None,
        },
    }
}

/// The models of a sequence of token spans.
pub open spec fn token_spans_model(v: Seq<TokenSpan>) -> Seq<TokenSpanModel> {
    v.map_values(|t: TokenSpan| token_span_model(t))
}

/// A machine in state `S`, with the token spans recorded so far.
pub struct StateMachine<S> {
    pub state: S,
    pub token_spans: Vec<TokenSpan>,
}

/// The cursor at the start of a token.
pub struct Start<'state> {
    pub char_buffer: &'state [char],
    pub this_char_span: CharSpan<'state>,
    pub next_char_span: Option<CharSpan<'state>>,
}

/// Inside a `//` comment.
pub struct Comment<'state> {
    pub char_buffer: &'state [char],
    pub comment: Vec<CharSpan<'state>>,
    pub this_char_span: CharSpan<'state>,
    pub next_char_span: Option<CharSpan<'state>>,
}

/// Inside a `/* */` comment.
pub struct MultiLineComment<'state> {
    pub char_buffer: &'state [char],
    pub comment: Vec<CharSpan<'state>>,
    pub this_char_span: CharSpan<'state>,
    pub next_char_span: Option<CharSpan<'state>>,
}

/// Inside an identifier.
pub struct StateIdentifier<'state> {
    pub char_buffer: &'state [char],
}

/// Inside a constant.
pub struct StateConstant<'state> {
    pub char_buffer: &'state [char],
}

/// The end of the line.
pub struct End {}

/// The model of a machine in state `Start`.
pub open spec fn start_model<'s>(m: StateMachine<Start<'s>>) -> MachineModel {
    MachineModel::Start {
        this: m.state.this_char_span.model(),
        next: option_model(m.state.next_char_span),
        rest: m.state.char_buffer@,
        emitted: token_spans_model(m.token_spans@),
    }
}

/// The model of a machine in state `Comment`.
pub open spec fn comment_model<'s>(m: StateMachine<Comment<'s>>) -> MachineModel {
    MachineModel::Comment {
        comment: spans_model(m.state.comment@),
        this: m.state.this_char_span.model(),
        next: option_model(m.state.next_char_span),
        rest: m.state.char_buffer@,
        emitted: token_spans_model(m.token_spans@),
    }
}

/// The model of a machine in state `MultiLineComment`.
pub open spec fn multi_line_model<'s>(m: StateMachine<MultiLineComment<'s>>) -> MachineModel {
    MachineModel::MultiLineComment {
        comment: spans_model(m.state.comment@),
        this: m.state.this_char_span.model(),
        next: option_model(m.state.next_char_span),
        rest: m.state.char_buffer@,
        emitted: token_spans_model(m.token_spans@),
    }
}

/// The model of a machine in state `End`.
pub open spec fn end_model(m: StateMachine<End>) -> MachineModel {
    MachineModel::End { emitted: token_spans_model(m.token_spans@) }
}

/// The span under the cursor at `location` and the one after it, read from
/// the front of `buffer`.
fn spans_from<'s>(location: Location, buffer: &'s [char]) -> (r: (CharSpan<'s>, Option<CharSpan<'s>>))
    requires
        buffer@.len() > 0,
        location.column + buffer@.len() <= usize::MAX + 1,
    ensures
        (r.0.model(), option_model(r.1)) == spans_at(location, buffer@),
{
    let this_char: &'s char = &buffer[0];
    let next_char_span = if buffer.len() > 1 {
        Some(CharSpan { location: location.add_column(), this_char: &buffer[1] })
    } else {
        None
    };
    (CharSpan { location, this_char }, next_char_span)
}

/// The characters after the first one.
fn tail<'s>(buffer: &'s [char]) -> (r: &'s [char])
    requires
        buffer@.len() > 0,
    ensures
        r@ == buffer@.drop_first(),
{
    let (_, rest) = buffer.split_at(1);
    rest
}

impl<'state> StateMachine<Start<'state>> {
    /// A machine at the first character of a line.
    pub fn start(line_num: usize, char_buffer: &'state [char]) -> (r: Self)
        requires
            char_buffer@.len() > 0,
        ensures
            start_model(r) == initial_model(line_num, char_buffer@),
            *r.state.this_char_span.this_char == char_buffer@[0],
            r.state.this_char_span.location == (Location { line: line_num, column: 1 }),
            r.state.char_buffer@ == char_buffer@.drop_first(),
            r.token_spans@.len() == 0,
    {
        let r = StateMachine { state: Start::new(line_num, char_buffer), token_spans: Vec::new() };
        assert(token_spans_model(r.token_spans@) =~= Seq::empty());
        r
    }
}

impl StateMachine<End> {
    /// A machine at the end of a line, with no token span recorded.
    pub fn end() -> (r: Self)
        ensures
            end_model(r) == (MachineModel::End { emitted: Seq::empty() }),
            r.token_spans@.len() == 0,
    {
        let r = StateMachine { state: End {}, token_spans: Vec::new() };
        assert(token_spans_model(r.token_spans@) =~= Seq::empty());
        r
    }
}

impl<'state> Start<'state> {
    /// The cursor at the first character of line `line_num`, in column one.
    pub fn new(line_num: usize, char_buffer: &'state [char]) -> (r: Self)
        requires
            char_buffer@.len() > 0,
        ensures
            ({
                let (this, next) = spans_at(Location { line: line_num, column: 1 }, char_buffer@);
                &&& r.this_char_span.model() == this
                &&& option_model(r.next_char_span) == next
                &&& r.char_buffer@ == char_buffer@.drop_first()
            }),
    {
        let char_location = Location { line: line_num, column: 1 };
        // The length of the line is a `usize`, so its columns fit in one.
        let _len: usize = char_buffer.len();
        let (this_char_span, next_char_span) = spans_from(char_location, char_buffer);
        Start { char_buffer: tail(char_buffer), this_char_span, next_char_span }
    }
}

/// A comment token running from the first to the last character of
/// `comment`, whose value is the characters of `comment` from index `from`
/// up to (not including) index `to`.
fn comment_span<'s>(comment: &Vec<CharSpan<'s>>, from: usize, to: usize) -> (r: TokenSpan)
    requires
        comment@.len() > 0,
        from <= to <= comment@.len(),
    ensures
        r.start == comment@[0].location,
        r.end == comment@.last().location,
        token_span_model(r).comment == Some(
            span_chars(spans_model(comment@)).subrange(from as int, to as int),
        ),
{
    let mut text = String::new();
    for i in from..to
        invariant
            from <= to <= comment@.len(),
            text@.len() == i - from,
            forall|j: int| 0 <= j < i - from ==> text@[j] == *comment@[j + from].this_char,
    {
        string_push(&mut text, *comment[i].this_char);
    }
    assert(text@ =~= span_chars(spans_model(comment@)).subrange(from as int, to as int));
    let last = comment.len() - 1;
    TokenSpan {
        start: comment[0].location,
        end: comment[last].location,
        token: Token::Comment(text),
    }
}

impl TokenSpan {
    /// The token span of a `//` comment: from its first to its last
    /// character, holding all of its characters as they were read.
    pub fn from_comment(val: Comment) -> (r: TokenSpan)
        requires
            val.comment@.len() > 0,
        ensures
            token_span_model(r) == line_comment_token(spans_model(val.comment@)),
    {
        let len = val.comment.len();
        let r = comment_span(&val.comment, 0, len);
        assert(span_chars(spans_model(val.comment@)).subrange(0, len as int) =~= span_chars(
            spans_model(val.comment@),
        ));
        r
    }

    /// The token span of a `/* */` comment whose characters run up to and
    /// including the closing `*`: from its first to its last character,
    /// holding what stands between the `/*` and `*/` markers.
    pub fn from_multi_line_comment(val: MultiLineComment) -> (r: TokenSpan)
        requires
            val.comment@.len() > 0,
        ensures
            token_span_model(r) == comment_token(spans_model(val.comment@)),
    {
        let len = val.comment.len();
        let from: usize = if len >= 3 { 2 } else { 0 };
        let to: usize = if len >= 3 { len - 1 } else { 0 };
        let r = comment_span(&val.comment, from, to);
        assert(token_span_model(r).comment == Some(multi_line_value(spans_model(val.comment@))));
        r
    }
}

proof fn lemma_spans_model_push<'s>(v: Seq<CharSpan<'s>>, s: CharSpan<'s>)
    ensures
        spans_model(v.push(s)) == spans_model(v).push(s.model()),
{
    assert(spans_model(v.push(s)) =~= spans_model(v).push(s.model()));
}

proof fn lemma_token_spans_model_push(v: Seq<TokenSpan>, t: TokenSpan)
    ensures
        token_spans_model(v.push(t)) == token_spans_model(v).push(token_span_model(t)),
{
    assert(token_spans_model(v.push(t)) =~= token_spans_model(v).push(token_span_model(t)));
}

impl<'state> StateMachine<Comment<'state>> {
    /// From `Start` into `Comment`; see `enter_comment`.
    pub fn from_start(val: StateMachine<Start<'state>>) -> (r: Self)
        requires
            lookahead_ok(start_model(val)),
            val.state.char_buffer@.len() > 0,
        ensures
            comment_model(r) == enter_comment(start_model(val)),
            r.token_spans@ == val.token_spans@,
    {
        let char_location = val.state.this_char_span.location;
        let char_buffer = val.state.char_buffer;
        let (this_char_span, next_char_span) = spans_from(char_location, char_buffer);
        let r = StateMachine {
            state: Comment {
                char_buffer,
                comment: vec![val.state.this_char_span],
                this_char_span,
                next_char_span,
            },
            token_spans: val.token_spans,
        };
        assert(spans_model(r.state.comment@) =~= seq![val.state.this_char_span.model()]);
        r
    }
}

impl<'state> StateMachine<MultiLineComment<'state>> {
    /// From `Start` into `MultiLineComment`; see `enter_multi_line`.
    pub fn from_start(val: StateMachine<Start<'state>>) -> (r: Self)
        requires
            lookahead_ok(start_model(val)),
            val.state.char_buffer@.len() > 0,
        ensures
            multi_line_model(r) == enter_multi_line(start_model(val)),
            r.token_spans@ == val.token_spans@,
    {
        let next_char_location = val.state.this_char_span.location.add_column();
        let char_buffer = val.state.char_buffer;
        let (this_char_span, next_char_span) = spans_from(next_char_location, char_buffer);
        let r = StateMachine {
            state: MultiLineComment {
                char_buffer: tail(char_buffer),
                comment: vec![val.state.this_char_span],
                this_char_span,
                next_char_span,
            },
            token_spans: val.token_spans,
        };
        assert(spans_model(r.state.comment@) =~= seq![val.state.this_char_span.model()]);
        r
    }

    /// The character under the cursor joins the comment; see `append_model`.
    pub fn append(val: StateMachine<MultiLineComment<'state>>) -> (r: StateMachine<
        MultiLineComment<'state>,
    >)
        requires
            lookahead_ok(multi_line_model(val)),
            val.state.char_buffer@.len() > 0,
        ensures
            multi_line_model(r) == append_model(multi_line_model(val)),
            r.token_spans@ == val.token_spans@,
    {
        let next_char_location = val.state.this_char_span.location.add_column();
        let char_buffer = val.state.char_buffer;
        let (this_char_span, next_char_span) = spans_from(next_char_location, char_buffer);
        let mut comment = val.state.comment;
        comment.push(val.state.this_char_span);
        proof {
            lemma_spans_model_push(val.state.comment@, val.state.this_char_span);
        }
        StateMachine {
            state: MultiLineComment {
                char_buffer: tail(char_buffer),
                comment,
                this_char_span,
                next_char_span,
            },
            token_spans: val.token_spans,
        }
    }

    /// The comment is closed and recorded; see `finish_model`.
    pub fn finish(val: StateMachine<MultiLineComment<'state>>) -> (r: StateMachine<Start<'state>>)
        requires
            lookahead_ok(multi_line_model(val)),
            val.state.char_buffer@.len() > 0,
        ensures
            start_model(r) == finish_model(multi_line_model(val)),
            r.token_spans@ == val.token_spans@.push(r.token_spans@.last()),
    {
        let mut val = val;
        let next_char_location = val.state.this_char_span.location.add_column();
        let char_buffer = val.state.char_buffer;
        let (this_char_span, next_char_span) = spans_from(next_char_location, char_buffer);
        let ghost old_comment = val.state.comment@;
        let ghost old_spans = val.token_spans@;
        val.state.comment.push(val.state.this_char_span);
        proof {
            lemma_spans_model_push(old_comment, val.state.this_char_span);
        }
        let mut token_spans = val.token_spans;
        let span = TokenSpan::from_multi_line_comment(val.state);
        token_spans.push(span);
        proof {
            lemma_token_spans_model_push(old_spans, span);
        }
        StateMachine {
            state: Start { char_buffer: tail(char_buffer), this_char_span, next_char_span },
            token_spans,
        }
    }
}

impl StateMachine<End> {
    /// From `Comment` to `End`, keeping the recorded spans.
    pub fn from_comment(val: StateMachine<Comment>) -> (r: StateMachine<End>)
        ensures
            r.token_spans@ == val.token_spans@,
            end_model(r) == (MachineModel::End { emitted: emitted_of(comment_model(val)) }),
    {
        StateMachine { state: End {}, token_spans: val.token_spans }
    }
}

/// A machine in any of its states.
pub enum StateMachineWrapper<'state> {
    New,
    Start(StateMachine<Start<'state>>),
    Comment(StateMachine<Comment<'state>>),
    MultiLineComment(StateMachine<MultiLineComment<'state>>),
    End(StateMachine<End>),
}

impl<'state> View for StateMachineWrapper<'state> {
    type V = MachineModel;

    open spec fn view(&self) -> MachineModel {
        match *self {
            StateMachineWrapper::New => MachineModel::New,
            StateMachineWrapper::Start(m) => start_model(m),
            StateMachineWrapper::Comment(m) => comment_model(m),
            StateMachineWrapper::MultiLineComment(m) => multi_line_model(m),
            StateMachineWrapper::End(m) => end_model(m),
        }
    }
}

/// The token spans that a machine holds (none, before it starts).
pub open spec fn wrapper_spans<'s>(w: StateMachineWrapper<'s>) -> Seq<TokenSpan> {
    match w {
        StateMachineWrapper::New => Seq::empty(),
        StateMachineWrapper::Start(m) => m.token_spans@,
        StateMachineWrapper::Comment(m) => m.token_spans@,
        StateMachineWrapper::MultiLineComment(m) => m.token_spans@,
        StateMachineWrapper::End(m) => m.token_spans@,
    }
}

/// Whether the step from `m` closes a multi-line comment (`*` followed by
/// `/`).
pub open spec fn closes_comment(m: MachineModel) -> bool {
    match m {
        MachineModel::MultiLineComment { this, next, .. } => this.ch == '*' && next is Some
            && next.unwrap().ch == '/',
        _ => false,
    }
}

impl<'state> StateMachineWrapper<'state> {
    /// Whether `step` is defined on this state.
    pub fn can_step(&self) -> (r: bool)
        ensures
            r == can_step(self@),
    {
        match self {
            StateMachineWrapper::New => true,
            StateMachineWrapper::Start(val) => {
                match val.state.next_char_span {
                    Some(span) => *val.state.this_char_span.this_char == '/' && (*span.this_char
                        == '/' || *span.this_char == '*'),
                    None => false,
                }
            },
            StateMachineWrapper::MultiLineComment(val) => *val.state.this_char_span.this_char
                == '\n' || val.state.next_char_span.is_some(),
            StateMachineWrapper::Comment(_) => false,
            StateMachineWrapper::End(_) => false,
        }
    }

    /// One step of the machine: at `/` followed by `/` or `*`, `Start` goes
    /// into `Comment` or `MultiLineComment`; in `MultiLineComment`, `*`
    /// followed by `/` closes the comment and goes back to `Start`, a
    /// new-line character ends the machine (with no span recorded), and any
    /// other character joins the comment. `New` stays as it is.
    pub fn step(self) -> (r: Self)
        requires
            lookahead_ok(self@),
            can_step(self@),
        ensures
            r@ == spec_step(self@),
            lookahead_ok(r@),
            r is End ==> wrapper_spans(r).len() == 0,
            closes_comment(self@) ==> wrapper_spans(r) == wrapper_spans(self).push(
                wrapper_spans(r).last(),
            ),
            !(r is End) && !closes_comment(self@) ==> wrapper_spans(r) == wrapper_spans(self),
            machine_wf(self@) ==> machine_wf(r@),
    {
        proof {
            law_step_keeps_lookahead(self@);
            if machine_wf(self@) {
                law_step_keeps_wf(self@);
            }
        }
        match self {
            StateMachineWrapper::New => StateMachineWrapper::New,
            StateMachineWrapper::Start(val) => {
                let this_char = *val.state.this_char_span.this_char;
                let next_char = val.state.next_char_span;
                match this_char {
                    '/' => {
                        match next_char {
                            Some(char_span) => match *char_span.this_char {
                                '/' => StateMachineWrapper::Comment(
                                    StateMachine::<Comment>::from_start(val),
                                ),
                                '*' => StateMachineWrapper::MultiLineComment(
                                    StateMachine::<MultiLineComment>::from_start(val),
                                ),
                                _ => {
                                    proof {
                                        assert(false);
                                    }
                                    StateMachineWrapper::Start(val)
                                },
                            },
                            None => {
                                proof {
                                    assert(false);
                                }
                                StateMachineWrapper::Start(val)
                            },
                        }
                    },
                    _ => {
                        proof {
                            assert(false);
                        }
                        StateMachineWrapper::Start(val)
                    },
                }
            },
            StateMachineWrapper::MultiLineComment(val) => {
                let this_char = *val.state.this_char_span.this_char;
                let next_char = val.state.next_char_span;
                match this_char {
                    '*' => {
                        match next_char {
                            Some(char_span) => match *char_span.this_char {
                                '/' => StateMachineWrapper::Start(
                                    StateMachine::<MultiLineComment>::finish(val),
                                ),
                                _ => StateMachineWrapper::MultiLineComment(
                                    StateMachine::<MultiLineComment>::append(val),
                                ),
                            },
                            None => {
                                proof {
                                    assert(false);
                                }
                                StateMachineWrapper::MultiLineComment(val)
                            },
                        }
                    },
                    '\n' => StateMachineWrapper::End(StateMachine::end()),
                    _ => StateMachineWrapper::MultiLineComment(
                        StateMachine::<MultiLineComment>::append(val),
                    ),
                }
            },
            StateMachineWrapper::Comment(val) => {
                proof {
                    assert(false);
                }
                StateMachineWrapper::Comment(val)
            },
            StateMachineWrapper::End(val) => {
                proof {
                    assert(false);
                }
                StateMachineWrapper::End(val)
            },
        }
    }
}

/// Tokenizes a line by running the machine from its first character to the
/// end of the line.
pub struct ParserFactory<'factory> {
    pub machine_wrapper: StateMachineWrapper<'factory>,
}

impl<'factory> ParserFactory<'factory> {
    /// A factory whose machine has not started.
    pub fn new() -> (r: ParseResult<Self>)
        ensures
            r matches Ok(f) && f.machine_wrapper@ == MachineModel::New,
    {
        Ok(ParserFactory { machine_wrapper: StateMachineWrapper::New })
    }

    /// Whether `parse` is defined on this line: the line is not empty, and the
    /// machine, started on it, reaches `End` without coming to a state on
    /// which `step` is not defined.
    pub fn accepts(line_num: usize, char_buffer: &[char]) -> (r: bool)
        ensures
            r == (char_buffer@.len() > 0 && run_ok(initial_model(line_num, char_buffer@))),
    {
        if char_buffer.len() == 0 {
            return false;
        }
        let ghost init = initial_model(line_num, char_buffer@);
        let mut machine = StateMachineWrapper::Start(StateMachine::start(line_num, char_buffer));
        proof {
            law_initial_wf(line_num, char_buffer@);
        }
        loop
            invariant
                char_buffer@.len() > 0,
                lookahead_ok(machine@),
                !(machine@ is New),
                init == initial_model(line_num, char_buffer@),
                run_ok(machine@) == run_ok(init),
            decreases measure(machine@),
        {
            if let StateMachineWrapper::End(_) = machine {
                assert(run_ok(machine@));
                return true;
            }
            if !machine.can_step() {
                assert(!run_ok(machine@));
                return false;
            }
            assert(run_ok(machine@) == run_ok(spec_step(machine@)));
            proof {
                law_step_progress(machine@);
            }
            machine = machine.step();
        }
    }

    /// Tokenizes the line `char_buffer`, line number `line_num`: steps the
    /// machine from the line's first character until it first reaches `End`,
    /// and returns the token spans that this `End` holds (which are none:
    /// see `law_run_records_nothing`).
    pub fn parse(self, line_num: usize, char_buffer: &'factory [char]) -> (r: ParseResult<
        Vec<TokenSpan>,
    >)
        requires
            char_buffer@.len() > 0,
            run_ok(initial_model(line_num, char_buffer@)),
        ensures
            r matches Ok(v) && token_spans_model(v@) == emitted_of(
                run_end(initial_model(line_num, char_buffer@)),
            ),
            r matches Ok(v) && v@.len() == 0,
    {
        let ghost init = initial_model(line_num, char_buffer@);
        proof {
            law_run_records_nothing(init);
        }
        let mut factory = self;
        factory.machine_wrapper = StateMachineWrapper::Start(
            StateMachine::start(line_num, char_buffer),
        );
        proof {
            law_initial_wf(line_num, char_buffer@);
        }
        loop
            invariant
                lookahead_ok(factory.machine_wrapper@),
                !(factory.machine_wrapper@ is New),
                !(factory.machine_wrapper@ is End),
                run_ok(factory.machine_wrapper@),
                init == initial_model(line_num, char_buffer@),
                run_end(factory.machine_wrapper@) == run_end(init),
                emitted_of(run_end(init)).len() == 0,
            decreases measure(factory.machine_wrapper@),
        {
            assert(run_end(factory.machine_wrapper@) == run_end(spec_step(factory.machine_wrapper@)));
            proof {
                law_step_progress(factory.machine_wrapper@);
            }
            let next = factory.machine_wrapper.step();
            match next {
                StateMachineWrapper::End(val) => {
                    assert(token_spans_model(val.token_spans@).len() == val.token_spans@.len());
                    return Ok(val.token_spans);
                },
                other => {
                    factory.machine_wrapper = other;
                },
            }
        }
    }
}

} // verus!
