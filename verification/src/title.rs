//! The title line of a manual page, and the sections of the manual.

use crate::fragment::Troffable;
use crate::text::uppercase;
use vstd::prelude::*;

verus! {

/// The section of the manual that a page belongs to.
#[derive(Debug, Clone, Copy, PartialEq, Eq)]
pub enum ManSection {
    /// Executable programs or shell commands.
    Executable,
    /// System calls: functions provided by the kernel.
    SystemCalls,
    /// Library calls: functions within program libraries.
    LibraryCalls,
    /// Special files, usually found in `/dev`.
    SpecialFiles,
    /// File formats and conventions.
    FileFormats,
    /// Games.
    Games,
    /// Miscellaneous: macro packages, conventions and the like.
    Miscellaneous,
    /// System administration commands, usually only for root.
    SystemAdministrationCommands,
    /// Kernel routines.
    KernelRoutines,
}

impl ManSection {
    /// The number of the section, from 1 to 9.
    pub open spec fn number(self) -> int {
        match self {
            ManSection::Executable => 1,
            ManSection::SystemCalls => 2,
            ManSection::LibraryCalls => 3,
            ManSection::SpecialFiles => 4,
            ManSection::FileFormats => 5,
            ManSection::Games => 6,
            ManSection::Miscellaneous => 7,
            ManSection::SystemAdministrationCommands => 8,
            ManSection::KernelRoutines => 9,
        }
    }

    /// The number of the section as it is written in a title line.
    pub open spec fn digits(self) -> Seq<char> {
        match self {
            ManSection::Executable => "1"@,
            ManSection::SystemCalls => "2"@,
            ManSection::LibraryCalls => "3"@,
            ManSection::SpecialFiles => "4"@,
            ManSection::FileFormats => "5"@,
            ManSection::Games => "6"@,
            ManSection::Miscellaneous => "7"@,
            ManSection::SystemAdministrationCommands => "8"@,
            ManSection::KernelRoutines => "9"@,
        }
    }

    /// The number of the section.
    pub fn value(&self) -> (n: u8)
        ensures
            n == self.number(),
            1 <= n <= 9,
    {
        match self {
            ManSection::Executable => 1,
            ManSection::SystemCalls => 2,
            ManSection::LibraryCalls => 3,
            ManSection::SpecialFiles => 4,
            ManSection::FileFormats => 5,
            ManSection::Games => 6,
            ManSection::Miscellaneous => 7,
            ManSection::SystemAdministrationCommands => 8,
            ManSection::KernelRoutines => 9,
        }
    }

    /// The number of the section, as text.
    pub fn as_str(&self) -> (text: &'static str)
        ensures
            text@ == self.digits(),
    {
        match self {
            ManSection::Executable => "1",
            ManSection::SystemCalls => "2",
            ManSection::LibraryCalls => "3",
            ManSection::SpecialFiles => "4",
            ManSection::FileFormats => "5",
            ManSection::Games => "6",
            ManSection::Miscellaneous => "7",
            ManSection::SystemAdministrationCommands => "8",
            ManSection::KernelRoutines => "9",
        }
    }
}

/// The decimal digit for a number from 0 to 9.
pub open spec fn digit_char(n: int) -> char
    recommends
        0 <= n <= 9,
{
    if n == 0 {
        '0'
    } else if n == 1 {
        '1'
    } else if n == 2 {
        '2'
    } else if n == 3 {
        '3'
    } else if n == 4 {
        '4'
    } else if n == 5 {
        '5'
    } else if n == 6 {
        '6'
    } else if n == 7 {
        '7'
    } else if n == 8 {
        '8'
    } else {
        '9'
    }
}

/// Each section has a number from 1 to 9, no two sections have the same
/// number, and a section is written as the one decimal digit of its number.
pub proof fn lemma_section_numbers(a: ManSection, b: ManSection)
    ensures
        1 <= a.number() <= 9,
        a.number() == b.number() ==> a == b,
        a.digits() == seq![digit_char(a.number())],
        ManSection::Executable.number() == 1,
        ManSection::KernelRoutines.number() == 9,
{
    reveal_strlit("1");
    reveal_strlit("2");
    reveal_strlit("3");
    reveal_strlit("4");
    reveal_strlit("5");
    reveal_strlit("6");
    reveal_strlit("7");
    reveal_strlit("8");
    reveal_strlit("9");
    assert(a.digits() =~= seq![digit_char(a.number())]);
}

/// Every number from 1 to 9 is the number of a section.
pub proof fn lemma_section_numbers_cover(n: int) -> (section: ManSection)
    requires
        1 <= n <= 9,
    ensures
        section.number() == n,
{
    if n == 1 {
        ManSection::Executable
    } else if n == 2 {
        ManSection::SystemCalls
    } else if n == 3 {
        ManSection::LibraryCalls
    } else if n == 4 {
        ManSection::SpecialFiles
    } else if n == 5 {
        ManSection::FileFormats
    } else if n == 6 {
        ManSection::Games
    } else if n == 7 {
        ManSection::Miscellaneous
    } else if n == 8 {
        ManSection::SystemAdministrationCommands
    } else {
        ManSection::KernelRoutines
    }
}

/// One field of a title line as it is written out: a space, then the field
/// in double quotes.
pub open spec fn quoted_field(field: Seq<char>) -> Seq<char> {
    " \""@ + field + "\""@
}

/// The title line for fields that are already formatted: the request `.TH`,
/// every field quoted, a newline.
pub open spec fn title_line_spec(fields: Seq<Seq<char>>) -> Seq<char> {
    ".TH"@ + fields.flat_map(|field: Seq<char>| quoted_field(field)) + "\n"@
}

/// Write the title line for fields that are already formatted. Each field
/// is quoted, the empty ones too; nothing in a field is escaped.
pub fn title_line(fields: &[String]) -> (out: String)
    ensures
        out@ == title_line_spec(fields.deep_view()),
{
    let mut out = String::from_str(".TH");
    let mut i: usize = 0;
    while i < fields.len()
        invariant
            i <= fields.len(),
            out@ == ".TH"@ + fields.deep_view().take(i as int).flat_map(
                |field: Seq<char>| quoted_field(field),
            ),
        decreases fields.len() - i,
    {
        proof {
            fields.deep_view().lemma_flat_map_take_append(
                |field: Seq<char>| quoted_field(field),
                i as int,
            );
        }
        out.append(" \"");
        out.append(fields[i].as_str());
        out.append("\"");
        i += 1;
    }
    proof {
        assert(fields.deep_view().take(fields.len() as int) =~= fields.deep_view());
    }
    out.append("\n");
    out
}

/// The title of a manual page: its name, its section of the manual, and
/// three fields that may be left out.
#[derive(Debug, PartialEq, Eq)]
pub struct Title {
    name: String,
    section: ManSection,
    date: Option<String>,
    source: Option<String>,
    manual: Option<String>,
}

/// The mathematical value of a [`Title`].
#[verifier::ext_equal]
pub struct TitleView {
    pub name: Seq<char>,
    pub section: ManSection,
    pub date: Option<Seq<char>>,
    pub source: Option<Seq<char>>,
    pub manual: Option<Seq<char>>,
}

/// A field of the title that may be left out: empty where it is.
pub open spec fn field_or_empty(field: Option<Seq<char>>) -> Seq<char> {
    match field {
        Some(text) => text,
        None => Seq::empty(),
    }
}

impl TitleView {
    /// The five fields of the title line: the name in capitals, the number
    /// of the section, then date, source and manual, each empty where it
    /// was left out.
    pub open spec fn fields(self) -> Seq<Seq<char>> {
        seq![
            uppercase(self.name),
            self.section.digits(),
            field_or_empty(self.date),
            field_or_empty(self.source),
            field_or_empty(self.manual),
        ]
    }

    /// The title line.
    pub open spec fn rendered(self) -> Seq<char> {
        title_line_spec(self.fields())
    }
}

impl View for Title {
    type V = TitleView;

    closed spec fn view(&self) -> TitleView {
        TitleView {
            name: self.name@,
            section: self.section,
            date: match self.date {
                Some(text) => Some(text@),
                None => None,
            },
            source: match self.source {
                Some(text) => Some(text@),
                None => None,
            },
            manual: match self.manual {
                Some(text) => Some(text@),
                None => None,
            },
        }
    }
}

/// The text of a field that may be left out.
fn text_or_empty(field: &Option<String>) -> (text: String)
    ensures
        text@ == field_or_empty(
            match *field {
                Some(text) => Some(text@),
                None => None,
            },
        ),
{
    match field {
        Some(text) => text.clone(),
        None => String::new(),
    }
}

impl Title {
    /// A title with a name and a section, and the other fields left out.
    pub fn new(name: &str, section: ManSection) -> (title: Title)
        ensures
            title@ == (TitleView {
                name: name@,
                section,
                date: None,
                source: None,
                manual: None,
            }),
    {
        Title { name: name.to_owned(), section, date: None, source: None, manual: None }
    }

    /// Set the date of the page.
    pub fn date(self, date: &str) -> (title: Title)
        ensures
            title@ == (TitleView { date: Some(date@), ..self@ }),
    {
        let mut title = self;
        title.date = Some(date.to_owned());
        title
    }

    /// Set the source of the page: the program, and its version, that the
    /// page describes.
    pub fn source(self, source: &str) -> (title: Title)
        ensures
            title@ == (TitleView { source: Some(source@), ..self@ }),
    {
        let mut title = self;
        title.source = Some(source.to_owned());
        title
    }

    /// Set the name of the manual that the page belongs to.
    pub fn manual(self, manual: &str) -> (title: Title)
        ensures
            title@ == (TitleView { manual: Some(manual@), ..self@ }),
    {
        let mut title = self;
        title.manual = Some(manual.to_owned());
        title
    }

    /// The five fields of the title line, given the name in capitals.
    pub fn formatted_fields(&self, upper_name: String) -> (fields: Vec<String>)
        ensures
            fields.deep_view() == seq![
                upper_name@,
                self@.section.digits(),
                field_or_empty(self@.date),
                field_or_empty(self@.source),
                field_or_empty(self@.manual),
            ],
    {
        let mut fields: Vec<String> = Vec::new();
        fields.push(upper_name);
        fields.push(String::from_str(self.section.as_str()));
        fields.push(text_or_empty(&self.date));
        fields.push(text_or_empty(&self.source));
        fields.push(text_or_empty(&self.manual));
        assert(fields.deep_view() =~= seq![
            upper_name@,
            self@.section.digits(),
            field_or_empty(self@.date),
            field_or_empty(self@.source),
            field_or_empty(self@.manual),
        ]);
        fields
    }

    /// Render the title line: `.TH`, then the name in capitals, the number of
    /// the section, date, source and manual, all five quoted.
    pub fn render(&self) -> (out: String)
        ensures
            out@ == self@.rendered(),
    {
        let upper_name = self.name.as_str().to_uppercase();
        let fields = self.formatted_fields(upper_name);
        title_line(fields.as_slice())
    }
}

impl Troffable for Title {
    open spec fn rendered(&self) -> Seq<char> {
        self@.rendered()
    }

    fn render(&self) -> (out: String) {
        Title::render(self)
    }
}

} // verus!
