use roff::document::APOSTROPHE_PREAMBLE;
use roff::escape::{
    escape_apostrophes, escape_inline, escape_leading_cc, escape_spaces, starts_with_cc,
};
use roff::line::Line;
use roff::span::{render_span_text, Apostrophes};
use roff::{bold, italic, line_break, roman, Inline, Roff, RoffBuilder};

#[test]
fn escape_dash() {
    assert_eq!(r"\-", escape_inline("-"));
}

#[test]
fn escape_backslash() {
    assert_eq!(r"\\x", escape_inline(r"\x"));
}

#[test]
fn escape_backslash_and_dash() {
    assert_eq!(r"\\\-", escape_inline(r"\-"));
}

#[test]
fn escapes_leading_control_chars() {
    assert_eq!("foo\n\\&.bar\n\\&'yo", escape_leading_cc("foo\n.bar\n'yo"));
}

#[test]
fn escape_plain() {
    assert_eq!("abc", escape_inline("abc"));
}

#[test]
fn render_roman() {
    let text = RoffBuilder::default().text(vec![roman("foo")]).build();
    assert_eq!(text.to_roff(), "foo\n");
}

#[test]
fn render_dash() {
    let text = RoffBuilder::default().text(vec![roman("foo-bar")]).build();
    assert_eq!(text.to_roff(), "foo\\-bar\n");
}

#[test]
fn render_italic() {
    let text = RoffBuilder::default().text(vec![italic("foo")]).build();
    assert_eq!(text.to_roff(), "\\fIfoo\\fR\n");
}

#[test]
fn render_bold() {
    let text = RoffBuilder::default().text(vec![bold("foo")]).build();
    assert_eq!(text.to_roff(), "\\fBfoo\\fR\n");
}

#[test]
fn render_text() {
    let text = RoffBuilder::default().text(vec![roman("roman")]).build();
    assert_eq!(text.to_roff(), "roman\n");
}

#[test]
fn render_text_with_leading_period() {
    let text = RoffBuilder::default().text(vec![roman(".roman")]).build();
    assert_eq!(text.to_roff(), "\\&.roman\n");
}

#[test]
fn render_text_with_newline_period() {
    let text = RoffBuilder::default()
        .text(vec![roman("foo\n.roman")])
        .build();
    assert_eq!(text.to_roff(), "foo\n\\&.roman\n");
}

#[test]
fn render_line_break() {
    let text = RoffBuilder::default()
        .text(vec![roman("roman"), Inline::LineBreak, roman("more")])
        .build();
    assert_eq!(text.to_roff(), "roman\n.br\nmore\n");
}

#[test]
fn render_control() {
    let text = RoffBuilder::default()
        .control("foo", &["bar", "foo and bar"])
        .build();
    assert_eq!(text.to_roff(), ".foo bar \"foo and bar\"\n");
}

#[test]
fn escape_inline_handles_every_occurrence() {
    assert_eq!(escape_inline("a-b-c\\d\\"), "a\\-b\\-c\\\\d\\\\");
    assert_eq!(escape_inline(""), "");
    assert_eq!(escape_inline("don't"), "don't");
    assert_eq!(escape_inline("naïve – dash"), "naïve – dash");
}

#[test]
fn escape_apostrophes_uses_the_string_register() {
    assert_eq!(escape_apostrophes("don't"), "don\\*(Aqt");
    assert_eq!(escape_apostrophes("''"), "\\*(Aq\\*(Aq");
    assert_eq!(escape_apostrophes("plain"), "plain");
}

#[test]
fn escape_leading_cc_looks_only_behind_newlines() {
    assert_eq!(escape_leading_cc(".start"), ".start");
    assert_eq!(escape_leading_cc("a.b'c"), "a.b'c");
    assert_eq!(escape_leading_cc("a\n\n.b"), "a\n\n\\&.b");
    assert_eq!(escape_leading_cc("a\n"), "a\n");
    assert_eq!(escape_leading_cc("\n'"), "\n\\&'");
    assert_eq!(escape_leading_cc("\n..\n''"), "\n\\&..\n\\&''");
}

#[test]
fn escape_spaces_quotes_only_where_a_space_is() {
    assert_eq!(escape_spaces("foo and bar"), "\"foo and bar\"");
    assert_eq!(escape_spaces("foo"), "foo");
    assert_eq!(escape_spaces(""), "");
    assert_eq!(escape_spaces(" "), "\" \"");
    assert_eq!(escape_spaces("tab\there"), "tab\there");
    assert_eq!(escape_spaces("say \"hi\""), "\"say \"hi\"\"");
}

#[test]
fn starts_with_cc_sees_period_and_apostrophe() {
    assert!(starts_with_cc(".x"));
    assert!(starts_with_cc("'x"));
    assert!(starts_with_cc("."));
    assert!(!starts_with_cc(""));
    assert!(!starts_with_cc("x."));
    assert!(!starts_with_cc("\\&."));
}

#[test]
fn span_text_pipeline() {
    assert_eq!(
        render_span_text("it's -x\n.y", true, Apostrophes::Handle),
        "it\\*(Aqs \\-x\n\\&.y"
    );
    assert_eq!(
        render_span_text("it's -x\n'y", true, Apostrophes::DontHandle),
        "it's \\-x\n\\&'y"
    );
    assert_eq!(render_span_text("'q", true, Apostrophes::DontHandle), "\\&'q");
    assert_eq!(render_span_text("'q", false, Apostrophes::DontHandle), "'q");
    assert_eq!(render_span_text("'q", true, Apostrophes::Handle), "\\*(Aqq");
    assert_eq!(render_span_text(".q", false, Apostrophes::Handle), ".q");
    assert_eq!(render_span_text("", true, Apostrophes::Handle), "");
}

#[test]
fn line_render_appends_to_what_is_there() {
    let mut out = String::from("kept");
    Line::control("SH".to_string(), vec!["NAME".to_string()]).render(&mut out, Apostrophes::Handle);
    Line::text(vec![roman("a'b")]).render(&mut out, Apostrophes::Handle);
    Line::text(vec![roman("a'b")]).render(&mut out, Apostrophes::DontHandle);
    assert_eq!(out, "kept.SH NAME\na\\*(Aqb\na'b\n");
}

#[test]
fn inline_render_appends_to_what_is_there() {
    let mut out = String::from("kept");
    bold("a-b").render(&mut out, false, Apostrophes::Handle);
    italic(".c").render(&mut out, true, Apostrophes::Handle);
    roman("'d").render(&mut out, true, Apostrophes::DontHandle);
    roman("'d").render(&mut out, true, Apostrophes::Handle);
    line_break().render(&mut out, false, Apostrophes::Handle);
    line_break().render(&mut out, true, Apostrophes::Handle);
    assert_eq!(
        out,
        "kept\\fBa\\-b\\fR\\fI\\&.c\\fR\\&'d\\*(Aqd\n.br\n.br\n"
    );
}

#[test]
fn lines_of_a_document_can_be_read_back() {
    let mut doc = Roff::new();
    assert!(doc.is_empty());
    assert_eq!(doc.len(), 0);
    doc.control("SH", &["NAME"]).text(vec![roman("x")]);
    assert!(!doc.is_empty());
    assert_eq!(doc.len(), 2);
    assert_eq!(
        doc.line(0),
        &Line::control("SH".to_string(), vec!["NAME".to_string()])
    );
    assert_eq!(doc.line(1), &Line::text(vec![roman("x")]));
    let mut text = String::new();
    for i in 0..doc.len() {
        doc.line(i).render(&mut text, Apostrophes::DontHandle);
    }
    assert_eq!(text, doc.to_roff());
}

#[test]
fn plain_roman_span_renders_verbatim() {
    for text in ["hello, world", "x", "a.b", "Ünïcödé", ""] {
        let raw = RoffBuilder::default().text(vec![roman(text)]).build().to_roff();
        assert_eq!(raw, format!("{}\n", text));
        let full = RoffBuilder::default().text(vec![roman(text)]).build().render();
        assert_eq!(full, format!("{}{}\n", APOSTROPHE_PREAMBLE, text));
    }
}

#[test]
fn styled_spans_bracket_the_escaped_text() {
    let doc = RoffBuilder::default()
        .text(vec![bold("a-b"), italic("c\\d"), roman("e'f")])
        .build();
    assert_eq!(doc.to_roff(), "\\fBa\\-b\\fR\\fIc\\\\d\\fRe'f\n");
    assert_eq!(
        doc.render(),
        format!("{}\\fBa\\-b\\fR\\fIc\\\\d\\fRe\\*(Aqf\n", APOSTROPHE_PREAMBLE)
    );
}

#[test]
fn styled_span_at_line_start_is_guarded_inside_the_font_change() {
    let doc = RoffBuilder::default().text(vec![bold(".x")]).build();
    assert_eq!(doc.to_roff(), "\\fB\\&.x\\fR\n");
    let doc = RoffBuilder::default().text(vec![roman("a"), italic(".x")]).build();
    assert_eq!(doc.to_roff(), "a\\fI.x\\fR\n");
}

#[test]
fn leading_apostrophe_is_guarded_only_when_left_alone() {
    let doc = RoffBuilder::default().text(vec![roman("'tis")]).build();
    assert_eq!(doc.to_roff(), "\\&'tis\n");
    assert_eq!(doc.render(), format!("{}\\*(Aqtis\n", APOSTROPHE_PREAMBLE));
}

#[test]
fn only_the_first_span_counts_as_line_start() {
    let doc = RoffBuilder::default()
        .text(vec![roman("a"), roman(".b")])
        .build();
    assert_eq!(doc.to_roff(), "a.b\n");
    let doc = RoffBuilder::default()
        .text(vec![roman(""), roman(".b")])
        .build();
    assert_eq!(doc.to_roff(), ".b\n");
}

#[test]
fn line_break_at_start_and_after_content() {
    let doc = RoffBuilder::default().text(vec![line_break()]).build();
    assert_eq!(doc.to_roff(), ".br\n\n");
    let doc = RoffBuilder::default()
        .text(vec![roman("a"), line_break()])
        .build();
    assert_eq!(doc.to_roff(), "a\n.br\n\n");
    let doc = RoffBuilder::default()
        .text(vec![line_break(), line_break()])
        .build();
    assert_eq!(doc.to_roff(), ".br\n\n.br\n\n");
}

#[test]
fn span_behind_a_line_break_is_not_guarded() {
    let doc = RoffBuilder::default()
        .text(vec![line_break(), roman(".x")])
        .build();
    assert_eq!(doc.to_roff(), ".br\n.x\n");
    let doc = RoffBuilder::default()
        .text(vec![roman("a"), line_break(), roman("'x")])
        .build();
    assert_eq!(doc.to_roff(), "a\n.br\n'x\n");
}

#[test]
fn empty_text_line_is_an_empty_line() {
    let doc = RoffBuilder::default().text(vec![]).build();
    assert_eq!(doc.to_roff(), "\n");
}

#[test]
fn control_line_arguments() {
    let doc = RoffBuilder::default()
        .control("TP", &[])
        .control("TH", &["FOO", "1"])
        .control("x", &["", "a b", "c\"d", "e-f"])
        .build();
    assert_eq!(doc.to_roff(), ".TP\n.TH FOO 1\n.x  \"a b\" c\"d e-f\n");
    assert_eq!(
        doc.render(),
        format!("{}.TP\n.TH FOO 1\n.x  \"a b\" c\"d e-f\n", APOSTROPHE_PREAMBLE)
    );
}

#[test]
fn preamble_stands_once_in_front() {
    assert_eq!(
        APOSTROPHE_PREAMBLE,
        ".ie \\n(.g .ds Aq \\(aq\n.el .ds Aq '\n"
    );
    let mut doc = Roff::new();
    assert_eq!(doc.render(), APOSTROPHE_PREAMBLE);
    assert_eq!(doc.to_roff(), "");
    doc.control("SH", &["NAME"]).text(vec![roman("don't")]);
    let full = doc.render();
    assert!(full.starts_with(APOSTROPHE_PREAMBLE));
    assert_eq!(full.matches(APOSTROPHE_PREAMBLE).count(), 1);
    assert_eq!(&full[APOSTROPHE_PREAMBLE.len()..], ".SH NAME\ndon\\*(Aqt\n");
    let raw = doc.to_roff();
    assert_eq!(raw, ".SH NAME\ndon't\n");
    assert_eq!(raw.matches(APOSTROPHE_PREAMBLE).count(), 0);
    assert!(!raw.contains(".ds Aq"));
}

#[test]
fn control_lines_are_written_as_they_are() {
    let mut doc = Roff::new();
    doc.control("ie", &["\\n(.g", ".ds", "Aq", "\\(aq"])
        .control("el", &[".ds", "Aq", "'"]);
    assert_eq!(doc.to_roff(), APOSTROPHE_PREAMBLE);
    assert_eq!(doc.render().matches(APOSTROPHE_PREAMBLE).count(), 2);
    let mut doc = Roff::new();
    doc.control("a-b\\c'd", &["-", "\\", "'", "."]);
    assert_eq!(doc.render(), format!("{}.a-b\\c'd - \\ ' .\n", APOSTROPHE_PREAMBLE));
}

#[test]
fn chained_calls_on_a_document() {
    let mut doc = Roff::new();
    doc.control("TH", &["FOO", "1"])
        .control("SH", &["NAME"])
        .text(vec![roman("foo - do a foo thing")]);
    assert_eq!(doc.to_roff(), ".TH FOO 1\n.SH NAME\nfoo \\- do a foo thing\n");
    let same = RoffBuilder::default()
        .control("TH", &["FOO", "1"])
        .control("SH", &["NAME"])
        .text(vec![roman("foo - do a foo thing")])
        .build();
    assert_eq!(doc, same);
    assert_eq!(doc.render(), same.render());
    assert_eq!(doc.to_roff(), same.to_roff());
}

#[test]
fn default_document_is_empty() {
    assert_eq!(Roff::default(), Roff::new());
    assert_eq!(RoffBuilder::default().build(), Roff::new());
    assert_eq!(Roff::default().to_roff(), "");
}

#[test]
fn to_writer_appends_the_full_rendering() {
    let mut doc = Roff::new();
    doc.text(vec![roman("don't — stop")]);
    let mut sink: Vec<u8> = b"kept".to_vec();
    doc.to_writer(&mut sink);
    let mut expected = b"kept".to_vec();
    expected.extend_from_slice(doc.render().as_bytes());
    assert_eq!(sink, expected);
    assert_eq!(
        String::from_utf8(sink).unwrap(),
        format!("kept{}don\\*(Aqt — stop\n", APOSTROPHE_PREAMBLE)
    );
}

#[test]
fn plain_text_converts_to_roman() {
    assert_eq!(Inline::from("x-y"), roman("x-y"));
    let span: Inline = "plain".into();
    assert_eq!(span, Inline::Roman("plain".to_string()));
    assert_eq!(bold("b"), Inline::Bold("b".to_string()));
    assert_eq!(italic("i"), Inline::Italic("i".to_string()));
    assert_eq!(line_break(), Inline::LineBreak);
}

#[test]
fn inline_converts_to_a_one_line_document() {
    let doc = Roff::from(bold("x"));
    assert_eq!(doc.to_roff(), "\\fBx\\fR\n");
    let doc: Roff = Inline::from(".y").into();
    assert_eq!(doc.to_roff(), "\\&.y\n");
    let doc = Roff::from("plain - text");
    assert_eq!(doc.to_roff(), "plain \\- text\n");
    assert_eq!(doc, Roff::from(roman("plain - text")));
}

#[test]
fn concatenation_keeps_every_order() {
    let first = || {
        RoffBuilder::default()
            .control("SH", &["ONE"])
            .text(vec![roman("it's one")])
            .build()
    };
    let second = || {
        let mut doc = Roff::new();
        doc.text(vec![italic("two")]).control("br", &[]);
        doc
    };
    let mut joined = first();
    joined.append(second());
    assert_eq!(
        joined.to_roff(),
        format!("{}{}", first().to_roff(), second().to_roff())
    );
    assert_eq!(
        joined.render(),
        format!(
            "{}{}",
            first().render(),
            &second().render()[APOSTROPHE_PREAMBLE.len()..]
        )
    );
    assert_eq!(joined.to_roff(), ".SH ONE\nit's one\n\\fItwo\\fR\n.br\n");

    let all = Roff::concat(vec![first(), Roff::new(), second(), first()]);
    assert_eq!(
        all.to_roff(),
        format!(
            "{}{}{}",
            first().to_roff(),
            second().to_roff(),
            first().to_roff()
        )
    );
    assert_eq!(Roff::concat(vec![]), Roff::new());
}

#[test]
fn clones_are_equal() {
    let doc = RoffBuilder::default()
        .control("a", &["b c"])
        .text(vec![roman("r"), bold("b"), italic("i"), line_break()])
        .build();
    let copy = doc.clone();
    assert_eq!(doc, copy);
    assert_eq!(doc.render(), copy.render());
    let line = Line::text(vec![roman("x")]);
    assert_eq!(line.clone(), line);
    assert_eq!(bold("z").clone(), bold("z"));
}

#[test]
fn demo_demo() {
    let mut doc = Roff::new();
    let page = doc
        .control("TH", &["CORRUPT", "1"])
        .control("SH", &["NAME"])
        .text(vec![roman(
            "corrupt - modify files by randomly changing bits",
        )])
        .control("SH", &["SYNOPSIS"])
        .text(vec![
            bold("corrupt"),
            " ".into(),
            "[".into(),
            bold("-n"),
            " ".into(),
            italic("BITS"),
            "]".into(),
            " ".into(),
            "[".into(),
            bold("--bits"),
            " ".into(),
            italic("BITS"),
            "]".into(),
            " ".into(),
            italic("file"),
            "...".into(),
        ])
        .control("SH", &["DESCRIPTION"])
        .text(vec![
            bold("corrupt"),
            " modifies files by toggling a randomly chosen bit.".into(),
        ])
        .control("SH", &["OPTIONS"])
        .control("TP", &[])
        .text(vec![
            bold("-n"),
            ", ".into(),
            bold("--bits"),
            "=".into(),
            italic("BITS"),
        ])
        .text(vec![
            "Set the number of bits to modify. ".into(),
            "Default is one bit.".into(),
        ])
        .to_roff();

    assert_eq!(
        page,
        concat_lines(&[
            ".TH CORRUPT 1",
            ".SH NAME",
            "corrupt \\- modify files by randomly changing bits",
            ".SH SYNOPSIS",
            "\\fBcorrupt\\fR [\\fB\\-n\\fR \\fIBITS\\fR] [\\fB\\-\\-bits\\fR \\fIBITS\\fR] \\fIfile\\fR...",
            ".SH DESCRIPTION",
            "\\fBcorrupt\\fR modifies files by toggling a randomly chosen bit.",
            ".SH OPTIONS",
            ".TP",
            "\\fB\\-n\\fR, \\fB\\-\\-bits\\fR=\\fIBITS\\fR",
            "Set the number of bits to modify. Default is one bit.",
        ])
    );
}

fn concat_lines(lines: &[&str]) -> String {
    let mut out = String::new();
    for line in lines {
        out.push_str(line);
        out.push('\n');
    }
    out
}
