use winapi_gen::state::{
    Comment, MultiLineComment, ParserFactory, Start, StateMachine, StateMachineWrapper,
};
use winapi_gen::token::{Location, Token, TokenSpan};

fn chars(s: &str) -> Vec<char> {
    s.chars().collect()
}

fn loc(line: usize, column: usize) -> Location {
    Location { line, column }
}

fn comment_text(t: &TokenSpan) -> String {
    match &t.token {
        Token::Comment(s) => s.clone(),
        other => panic!("not a comment: {:?}", other),
    }
}

#[test]
fn start_reads_first_two_characters() {
    let buf = chars("/*a\n");
    let s = Start::new(7, &buf);
    assert_eq!(*s.this_char_span.this_char, '/');
    assert_eq!(s.this_char_span.location, loc(7, 1));
    let next = s.next_char_span.unwrap();
    assert_eq!(*next.this_char, '*');
    assert_eq!(next.location, loc(7, 2));
    assert_eq!(s.char_buffer, &['*', 'a', '\n'][..]);
}

#[test]
fn start_on_one_character_has_no_next() {
    let buf = chars("/");
    let s = Start::new(0, &buf);
    assert_eq!(*s.this_char_span.this_char, '/');
    assert!(s.next_char_span.is_none());
    assert!(s.char_buffer.is_empty());
}

#[test]
fn machine_start_and_end_record_nothing() {
    let buf = chars("/*");
    let m = StateMachine::start(2, &buf);
    assert!(m.token_spans.is_empty());
    assert_eq!(m.state.this_char_span.location, loc(2, 1));
    let e = StateMachine::end();
    assert!(e.token_spans.is_empty());
}

#[test]
fn slash_star_enters_a_multi_line_comment() {
    let buf = chars("/*a\n");
    let m = StateMachine::start(1, &buf);
    match StateMachineWrapper::Start(m).step() {
        StateMachineWrapper::MultiLineComment(m) => {
            assert_eq!(*m.state.this_char_span.this_char, '*');
            assert_eq!(m.state.this_char_span.location, loc(1, 2));
            assert_eq!(m.state.comment.len(), 1);
            assert_eq!(*m.state.comment[0].this_char, '/');
            assert_eq!(m.state.comment[0].location, loc(1, 1));
            assert_eq!(m.state.char_buffer, &['a', '\n'][..]);
            assert_eq!(*m.state.next_char_span.unwrap().this_char, 'a');
            assert_eq!(m.state.next_char_span.unwrap().location, loc(1, 3));
        }
        _ => panic!("expected a multi-line comment"),
    }
}

#[test]
fn slash_slash_enters_a_comment_in_place() {
    let buf = chars("//x");
    let m = StateMachine::start(5, &buf);
    match StateMachineWrapper::Start(m).step() {
        StateMachineWrapper::Comment(c) => {
            // The cursor is on the second `/`, with the first one's location,
            // and nothing more has been consumed.
            assert_eq!(*c.state.this_char_span.this_char, '/');
            assert_eq!(c.state.this_char_span.location, loc(5, 1));
            assert_eq!(c.state.char_buffer, &['/', 'x'][..]);
            assert_eq!(*c.state.next_char_span.unwrap().this_char, 'x');
            assert_eq!(c.state.next_char_span.unwrap().location, loc(5, 2));
            assert_eq!(c.state.comment.len(), 1);
            assert_eq!(*c.state.comment[0].this_char, '/');
            let end = StateMachine::from_comment(c);
            assert!(end.token_spans.is_empty());
        }
        _ => panic!("expected a comment"),
    }
}

#[test]
fn newline_in_a_multi_line_comment_ends_the_line() {
    let buf = chars("/*a\n");
    let mut w = StateMachineWrapper::Start(StateMachine::start(1, &buf));
    w = w.step(); // into the comment, on `*`
    w = w.step(); // `a` joins
    match &w {
        StateMachineWrapper::MultiLineComment(m) => {
            assert_eq!(*m.state.this_char_span.this_char, 'a');
            assert_eq!(m.state.comment.len(), 2);
        }
        _ => panic!("expected a multi-line comment"),
    }
    w = w.step(); // on the new line
    match &w {
        StateMachineWrapper::MultiLineComment(m) => {
            assert_eq!(*m.state.this_char_span.this_char, '\n');
            assert_eq!(m.state.this_char_span.location, loc(1, 4));
            assert!(m.state.next_char_span.is_none());
            assert!(m.state.char_buffer.is_empty());
        }
        _ => panic!("expected a multi-line comment"),
    }
    match w.step() {
        StateMachineWrapper::End(e) => assert!(e.token_spans.is_empty()),
        _ => panic!("expected the end"),
    }
}

#[test]
fn star_slash_closes_and_records_the_comment() {
    let input = "/**/*\n";
    let buf = chars(input);
    let mut w = StateMachineWrapper::Start(StateMachine::start(3, &buf));
    w = w.step(); // `/*`
    w = w.step(); // second `*` joins
    w = w.step(); // `*/` closes
    match &w {
        StateMachineWrapper::Start(s) => {
            assert_eq!(s.token_spans.len(), 1);
            let t = &s.token_spans[0];
            // `/**/`: the `*` of `/*` and that of `*/` are next to each
            // other, and nothing stands between the markers.
            assert_eq!(comment_text(t), "");
            assert_eq!(t.start, loc(3, 1));
            assert_eq!(t.end, loc(3, 3));
            assert_eq!(buf[t.start.column - 1], '/');
            assert_eq!(buf[t.start.column], '*');
            assert_eq!(buf[t.end.column - 1], '*');
            assert_eq!(buf[t.end.column], '/');
            // The cursor is on the closing `/`.
            assert_eq!(*s.state.this_char_span.this_char, '/');
            assert_eq!(s.state.this_char_span.location, loc(3, 4));
            // What is left to read is what follows the cursor in the line.
            assert_eq!(s.state.char_buffer, &buf[4..]);
            // The column one past the last character is unchanged.
            assert_eq!(s.state.this_char_span.location.column + s.state.char_buffer.len(), 6);
        }
        _ => panic!("expected the start state"),
    }
}

#[test]
fn a_step_keeps_every_character() {
    let input = "/*xy*q\n";
    let buf = chars(input);
    let mut w = StateMachineWrapper::Start(StateMachine::start(1, &buf));
    for _ in 0..5 {
        w = w.step();
        match &w {
            StateMachineWrapper::MultiLineComment(m) => {
                let mut seen: String = m.state.comment.iter().map(|c| *c.this_char).collect();
                seen.push(*m.state.this_char_span.this_char);
                seen.extend(m.state.char_buffer.iter());
                assert_eq!(seen, input);
                assert_eq!(
                    m.state.this_char_span.location.column + m.state.char_buffer.len(),
                    input.chars().count()
                );
            }
            _ => panic!("expected a multi-line comment"),
        }
    }
}

#[test]
fn new_stays_new() {
    let w = StateMachineWrapper::New;
    assert!(w.can_step());
    assert!(matches!(w.step(), StateMachineWrapper::New));
}

#[test]
fn can_step_only_where_step_is_defined() {
    let buf = chars("ab");
    assert!(!StateMachineWrapper::Start(StateMachine::start(1, &buf)).can_step());
    let buf = chars("/");
    assert!(!StateMachineWrapper::Start(StateMachine::start(1, &buf)).can_step());
    let buf = chars("/a");
    assert!(!StateMachineWrapper::Start(StateMachine::start(1, &buf)).can_step());
    let buf = chars("/*");
    assert!(StateMachineWrapper::Start(StateMachine::start(1, &buf)).can_step());
    let buf = chars("//");
    assert!(StateMachineWrapper::Start(StateMachine::start(1, &buf)).can_step());
    let w = StateMachineWrapper::Start(StateMachine::start(1, &buf)).step();
    assert!(!w.can_step());
    assert!(!StateMachineWrapper::End(StateMachine::end()).can_step());
    // `*` as the last character of a comment: nothing follows it.
    let buf = chars("/*");
    let w = StateMachineWrapper::Start(StateMachine::start(1, &buf)).step();
    assert!(!w.can_step());
}

#[test]
fn token_spans_of_comments() {
    // The comment's characters run up to the `*` of `*/`: `/*ab*`.
    let buf = chars("/*ab*/");
    let m = StateMachine::start(9, &buf);
    let mut m = StateMachine::<MultiLineComment>::from_start(m);
    for _ in 0..3 {
        m = StateMachine::<MultiLineComment>::append(m);
    }
    assert_eq!(*m.state.this_char_span.this_char, '*');
    let m = StateMachine::<MultiLineComment>::append(m);
    let t = TokenSpan::from_multi_line_comment(m.state);
    assert_eq!(comment_text(&t), "ab");
    assert_eq!(t.start, loc(9, 1));
    assert_eq!(t.end, loc(9, 5));

    // Too short to hold anything between its markers.
    let buf = chars("/*ab");
    let m = StateMachine::start(9, &buf);
    let m = StateMachine::<MultiLineComment>::from_start(m);
    let m = StateMachine::<MultiLineComment>::append(m);
    let t = TokenSpan::from_multi_line_comment(m.state);
    assert_eq!(comment_text(&t), "");
    assert_eq!(t.start, loc(9, 1));
    assert_eq!(t.end, loc(9, 2));

    // A `//` comment keeps its characters as they were read.
    let buf = chars("//c");
    let m = StateMachine::start(2, &buf);
    let c = StateMachine::<Comment>::from_start(m);
    let t = TokenSpan::from_comment(c.state);
    assert_eq!(comment_text(&t), "/");
    assert_eq!(t.start, loc(2, 1));
    assert_eq!(t.end, loc(2, 1));
}

#[test]
fn closed_comment_value_leaves_out_the_markers() {
    let buf = chars("/* a */");
    let m = StateMachine::start(1, &buf);
    let mut m = StateMachine::<MultiLineComment>::from_start(m);
    for _ in 0..4 {
        m = StateMachine::<MultiLineComment>::append(m);
    }
    assert_eq!(*m.state.this_char_span.this_char, '*');
    assert_eq!(m.state.this_char_span.location, loc(1, 6));
    assert_eq!(m.state.char_buffer, &['/'][..]);
    let r = StateMachine::<MultiLineComment>::finish(m);
    assert_eq!(r.token_spans.len(), 1);
    assert_eq!(r.token_spans[0].token, Token::Comment(" a ".to_string()));
    assert_eq!(r.token_spans[0].start, loc(1, 1));
    assert_eq!(r.token_spans[0].end, loc(1, 6));
}

#[test]
fn stepping_records_the_value_between_the_markers() {
    let buf = chars("/* x */* y\n");
    let mut w = StateMachineWrapper::Start(StateMachine::start(1, &buf));
    for _ in 0..6 {
        w = w.step();
    }
    match &w {
        StateMachineWrapper::Start(s) => {
            assert_eq!(s.token_spans.len(), 1);
            assert_eq!(comment_text(&s.token_spans[0]), " x ");
        }
        _ => panic!("expected the start state"),
    }
}

#[test]
fn finish_records_and_returns_to_start() {
    let buf = chars("/*/x");
    let m = StateMachine::start(1, &buf);
    let m = StateMachine::<MultiLineComment>::from_start(m);
    let s = StateMachine::<MultiLineComment>::finish(m);
    assert_eq!(s.token_spans.len(), 1);
    assert_eq!(comment_text(&s.token_spans[0]), "");
    assert_eq!(s.token_spans[0].start, loc(1, 1));
    assert_eq!(s.token_spans[0].end, loc(1, 2));
    assert_eq!(*s.state.this_char_span.this_char, '/');
    assert_eq!(*s.state.next_char_span.unwrap().this_char, 'x');
    assert_eq!(s.state.char_buffer, &['x'][..]);
}

#[test]
fn factory_starts_new() {
    let f = ParserFactory::new().unwrap();
    assert!(matches!(f.machine_wrapper, StateMachineWrapper::New));
}

#[test]
fn accepts_lines_that_run_to_the_end() {
    assert!(ParserFactory::accepts(0, &chars("/*\n")));
    assert!(ParserFactory::accepts(0, &chars("/* a comment\n")));
    assert!(ParserFactory::accepts(0, &chars("/**/*\n")));
    assert!(!ParserFactory::accepts(0, &chars("")));
    assert!(!ParserFactory::accepts(0, &chars("int a;\n")));
    assert!(!ParserFactory::accepts(0, &chars("/**/\n")));
    assert!(!ParserFactory::accepts(0, &chars("// line\n")));
    assert!(!ParserFactory::accepts(0, &chars("/* open")));
}

#[test]
fn parse_runs_to_the_end_with_no_spans() {
    let buf = chars("/* a comment\n");
    let spans = ParserFactory::new().unwrap().parse(4, &buf).unwrap();
    assert!(spans.is_empty());
    let buf = chars("/**/* again\n");
    let spans = ParserFactory::new().unwrap().parse(4, &buf).unwrap();
    assert!(spans.is_empty());
}

#[test]
fn steps_pass_recorded_spans_on_unchanged() {
    let ident = TokenSpan {
        start: loc(1, 1),
        end: loc(1, 3),
        token: Token::Ident("abc".to_string()),
    };
    let buf = chars("/*x*/*\n");
    let mut m = StateMachine::start(1, &buf);
    m.token_spans.push(ident.clone());
    let mut w = StateMachineWrapper::Start(m);
    for _ in 0..3 {
        w = w.step();
        match &w {
            StateMachineWrapper::MultiLineComment(m) => assert_eq!(m.token_spans, vec![ident.clone()]),
            _ => panic!("expected a multi-line comment"),
        }
    }
    w = w.step(); // `*/` closes: the earlier span stays, the comment follows it
    match &w {
        StateMachineWrapper::Start(s) => {
            assert_eq!(s.token_spans.len(), 2);
            assert_eq!(s.token_spans[0], ident);
            assert_eq!(s.token_spans[1].token, Token::Comment("x".to_string()));
        }
        _ => panic!("expected the start state"),
    }
}
