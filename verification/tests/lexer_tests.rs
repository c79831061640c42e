use webots_proto::lexer::{Lexer, TokenKind};

fn run(input: &str) -> Vec<webots_proto::lexer::Token> {
    let mut lexer = Lexer::new(input);
    let mut tokens = Vec::new();
    loop {
        let t = lexer.next_token();
        let end = matches!(t.kind, TokenKind::Eof);
        tokens.push(t);
        if end {
            break;
        }
    }
    for _ in 0..3 {
        assert!(matches!(lexer.next_token().kind, TokenKind::Eof));
    }
    tokens
}

#[test]
fn tokens_partition_the_input() {
    for input in [
        "",
        "Group { children [ Shape { } ] }",
        "#VRML_SIM R2025a utf8\nRobot {\n  name \"r\u{e9}\" # comment\n  translation 1 -2.5e3 3\n}\n",
        "\n\n%< x >%\tDEF A USE B\r\n",
    ] {
        let tokens = run(input);
        let first = &tokens[0];
        assert_eq!(first.span.start, 0);
        assert_eq!((first.span.start_line, first.span.start_col), (1, 1));
        for w in tokens.windows(2) {
            assert!(w[0].span.start < w[0].span.end);
            assert_eq!(w[1].span.start, w[0].span.end);
        }
        let last = tokens.last().unwrap();
        assert_eq!(last.span.start, input.len());
        assert_eq!(last.span.end, input.len());
        assert_eq!(last.span.start_line, 1 + input.matches('\n').count());
        assert!(tokens.len() - 1 <= input.chars().count());
    }
}
