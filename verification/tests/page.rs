use roff::fragment::{bold, escape, italic, list, render_all, Troffable};
use roff::page::{heading_line, ManPage, Section, COMPATIBILITY};
use roff::title::{title_line, ManSection, Title};

#[test]
fn section_numbers() {
    assert_eq!(ManSection::Executable.value(), 1);
    assert_eq!(ManSection::SystemCalls.value(), 2);
    assert_eq!(ManSection::LibraryCalls.value(), 3);
    assert_eq!(ManSection::SpecialFiles.value(), 4);
    assert_eq!(ManSection::FileFormats.value(), 5);
    assert_eq!(ManSection::Games.value(), 6);
    assert_eq!(ManSection::Miscellaneous.value(), 7);
    assert_eq!(ManSection::SystemAdministrationCommands.value(), 8);
    assert_eq!(ManSection::KernelRoutines.value(), 9);
}

#[test]
fn section_numbers_are_distinct_and_written_as_digits() {
    let all = [
        ManSection::Executable,
        ManSection::SystemCalls,
        ManSection::LibraryCalls,
        ManSection::SpecialFiles,
        ManSection::FileFormats,
        ManSection::Games,
        ManSection::Miscellaneous,
        ManSection::SystemAdministrationCommands,
        ManSection::KernelRoutines,
    ];
    for (i, a) in all.iter().enumerate() {
        assert_eq!(a.value() as usize, i + 1);
        assert_eq!(a.as_str(), format!("{}", i + 1));
        for (j, b) in all.iter().enumerate() {
            assert_eq!(a.value() == b.value(), i == j);
        }
    }
}

#[test]
fn styling_helpers_bracket_the_text_as_it_is() {
    assert_eq!(bold("foo"), "\\fBfoo\\fP");
    assert_eq!(italic("foo"), "\\fIfoo\\fP");
    assert_eq!(bold("-n"), "\\fB-n\\fP");
    assert_eq!(italic("a\\b'c"), "\\fIa\\b'c\\fP");
    assert_eq!(bold(""), "\\fB\\fP");
}

#[test]
fn escape_touches_hyphens_only() {
    assert_eq!(escape("-"), "\\-");
    assert_eq!(escape("--bits"), "\\-\\-bits");
    assert_eq!(escape("a\\b'c.d"), "a\\b'c.d");
    assert_eq!(escape("\\-"), "\\\\-");
    assert_eq!(escape(""), "");
}

#[test]
fn fragments_render_to_their_text() {
    assert_eq!("lit".render(), "lit");
    assert_eq!("owned".to_string().render(), "owned");
    assert_eq!(vec!["a", "b", "c"].render(), "abc");
    assert_eq!(vec![vec!["a", "b"], vec![], vec!["c"]].render(), "abc");
    assert_eq!(render_all(&["x".to_string(), "-".to_string()]), "x-");
    let none: [&str; 0] = [];
    assert_eq!(render_all(&none), "");
}

#[test]
fn list_is_a_tagged_paragraph() {
    let item = list(
        &[bold("-n"), ", ".into(), bold("--bits"), "=".into(), italic("BITS")],
        &["Set the number of bits to modify. ", "Default is one bit."],
    );
    assert_eq!(
        item,
        ".TP\n\\fB-n\\fP, \\fB--bits\\fP=\\fIBITS\\fP\nSet the number of bits to modify. Default is one bit."
    );
    let none: [&str; 0] = [];
    assert_eq!(list(&none, &none), ".TP\n\n");
}

#[test]
fn title_line_quotes_every_field() {
    let fields: Vec<String> = ["CORRUPT", "1", "", "corrupt v1", ""]
        .iter()
        .map(|s| s.to_string())
        .collect();
    assert_eq!(title_line(&fields), ".TH \"CORRUPT\" \"1\" \"\" \"corrupt v1\" \"\"\n");
    assert_eq!(title_line(&[]), ".TH\n");
}

#[test]
fn title_has_five_fields_and_an_upper_case_name() {
    let title = Title::new("corrupt", ManSection::Executable);
    assert_eq!(title.render(), ".TH \"CORRUPT\" \"1\" \"\" \"\" \"\"\n");
    let title = Title::new("printf", ManSection::LibraryCalls)
        .manual("Library Functions")
        .date("2021-12-25")
        .source("libc 2");
    assert_eq!(
        title.render(),
        ".TH \"PRINTF\" \"3\" \"2021-12-25\" \"libc 2\" \"Library Functions\"\n"
    );
    let title = Title::new("x", ManSection::KernelRoutines).date("a").date("b");
    assert_eq!(title.render(), ".TH \"X\" \"9\" \"b\" \"\" \"\"\n");
    let fields = title.formatted_fields("given".to_string());
    assert_eq!(fields, vec!["given", "9", "b", "", ""]);
}

#[test]
fn heading_line_quotes_the_heading() {
    assert_eq!(heading_line("NAME"), ".SH \"NAME\"\n");
    assert_eq!(heading_line("see also"), ".SH \"see also\"\n");
}

#[test]
fn section_heading_is_put_in_capitals_and_hyphens_are_escaped() {
    let section = Section::new("see-also", &["a-b", "\\fBc\\fP"]);
    assert_eq!(section.render(), ".SH \"SEE-ALSO\"\na\\-b\\fBc\\fP");
    assert_eq!(
        section.render_with_heading("as given"),
        ".SH \"as given\"\na\\-b\\fBc\\fP"
    );
    let section = Section::new("straße", &["x"]);
    assert_eq!(section.render(), ".SH \"STRASSE\"\nx");
}

#[test]
fn hyphen_escaped_by_the_caller_is_escaped_once_more() {
    let section = Section::new("options", &[bold(&escape("-n"))]);
    assert_eq!(section.render(), ".SH \"OPTIONS\"\n\\fB\\\\-n\\fP");
}

#[test]
fn page_renders_title_settings_and_sections_in_order() {
    assert_eq!(COMPATIBILITY, ".ss \\n[.ss] 0\n.nh\n.ad l\n");
    let none: [&str; 0] = [];
    let page = ManPage::new("corrupt", ManSection::Executable);
    assert_eq!(
        page.render(),
        ".TH \"CORRUPT\" \"1\" \"\" \"\" \"\"\n.ss \\n[.ss] 0\n.nh\n.ad l\n"
    );
    let page = page
        .section("first", &["one"])
        .section("second", &none)
        .section("third", &["three"]);
    assert_eq!(
        page.render(),
        [
            ".TH \"CORRUPT\" \"1\" \"\" \"\" \"\"\n",
            ".ss \\n[.ss] 0\n.nh\n.ad l\n",
            ".SH \"FIRST\"\none\n",
            ".SH \"SECOND\"\n\n",
            ".SH \"THIRD\"\nthree\n",
        ].concat()
    );
}

#[test]
fn page_from_fields_writes_them_as_they_are() {
    let page = ManPage::from_fields(&["corrupt", "1M", "today"])
        .date("ignored")
        .source("ignored")
        .manual("ignored")
        .section("name", &["corrupt"]);
    assert_eq!(
        page.render(),
        [
            ".TH \"corrupt\" \"1M\" \"today\"\n",
            ".ss \\n[.ss] 0\n.nh\n.ad l\n",
            ".SH \"NAME\"\ncorrupt\n",
        ].concat()
    );
}

#[test]
fn corrupt_manual_page() {
    let page = ManPage::new("corrupt", ManSection::Executable)
        .date("2021-12-25")
        .manual("General Commands Manual")
        .source("corrupt v1")
        .section(
            "name",
            &["corrupt - modify files by randomly changing bits"],
        )
        .section(
            "SYNOPSIS",
            &[
                bold("corrupt"),
                " ".into(),
                "[".into(),
                bold("-n"),
                " ".into(),
                italic("BITS"),
                "]".into(),
                " ".into(),
                "[".into(),
                bold("--bits"),
                " ".into(),
                italic("BITS"),
                "]".into(),
                " ".into(),
                italic("file"),
                "...".into(),
            ],
        )
        .section(
            "description",
            &[
                bold("corrupt"),
                " modifies files by toggling a randomly chosen bit.".into(),
            ],
        )
        .section(
            "options",
            &[list(
                &[
                    bold("-n"),
                    ", ".into(),
                    bold("--bits"),
                    "=".into(),
                    italic("BITS"),
                ],
                &["Set the number of bits to modify. ", "Default is one bit."],
            )],
        );

    assert_eq!(
        page.render(),
        [
            ".TH \"CORRUPT\" \"1\" \"2021-12-25\" \"corrupt v1\" \"General Commands Manual\"\n",
            ".ss \\n[.ss] 0\n",
            ".nh\n",
            ".ad l\n",
            ".SH \"NAME\"\n",
            "corrupt \\- modify files by randomly changing bits\n",
            ".SH \"SYNOPSIS\"\n",
            "\\fBcorrupt\\fP [\\fB\\-n\\fP \\fIBITS\\fP] [\\fB\\-\\-bits\\fP \\fIBITS\\fP] \\fIfile\\fP...\n",
            ".SH \"DESCRIPTION\"\n",
            "\\fBcorrupt\\fP modifies files by toggling a randomly chosen bit.\n",
            ".SH \"OPTIONS\"\n",
            ".TP\n",
            "\\fB\\-n\\fP, \\fB\\-\\-bits\\fP=\\fIBITS\\fP\n",
            "Set the number of bits to modify. Default is one bit.\n",
        ].concat()
    );
}

#[test]
fn titles_sections_and_pages_are_fragments_too() {
    let title = Title::new("x", ManSection::Games);
    let section = Section::new("name", &["x - y"]);
    let page = ManPage::new("x", ManSection::Games).section("name", &["x - y"]);
    assert_eq!(Troffable::render(&title), title.render());
    assert_eq!(Troffable::render(&section), section.render());
    assert_eq!(Troffable::render(&page), page.render());
    assert_eq!(
        render_all(&[section]),
        ".SH \"NAME\"\nx \\- y"
    );
}
