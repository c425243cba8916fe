//! A manual page assembled section by section.
//!
//! This is the simple way to a whole page: a title line, three lines that
//! settle how the page is typeset, and the sections in the order in which
//! they were added. The body of a section is pre-formatted text, made from
//! the helpers of [`fragment`](crate::fragment).

use crate::fragment::{escape, escape_spec, render_all, rendered_all, Troffable};
use crate::text::{owned_strings, uppercase};
use crate::title::{title_line, title_line_spec, ManSection, Title, TitleView};
use vstd::prelude::*;

verus! {

/// The lines that follow the title line of every page: no extra space
/// between sentences, so that a period before a line break gains none; no
/// automatic hyphenation; no justification, text is set flush left.
pub const COMPATIBILITY: &'static str = ".ss \\n[.ss] 0\n.nh\n.ad l\n";

/// The control line that opens a section, for a heading as it is to appear.
pub open spec fn heading_line_spec(heading: Seq<char>) -> Seq<char> {
    ".SH \""@ + heading + "\"\n"@
}

/// Write the control line that opens a section: `.SH` and the heading in
/// double quotes. The heading is written as it is given.
pub fn heading_line(heading: &str) -> (out: String)
    ensures
        out@ == heading_line_spec(heading@),
{
    let mut out = String::from_str(".SH \"");
    out.append(heading);
    out.append("\"\n");
    out
}

/// A section of a manual page: a heading and the text below it.
#[derive(Debug, PartialEq, Eq)]
pub struct Section {
    heading: String,
    body: String,
}

/// The mathematical value of a [`Section`].
#[verifier::ext_equal]
pub struct SectionView {
    /// The heading as the caller gave it.
    pub heading: Seq<char>,
    /// The text below the heading, as it is written out.
    pub body: Seq<char>,
}

impl SectionView {
    /// The section as it is written out: the heading line, with the heading
    /// in capitals, and the body.
    pub open spec fn rendered(self) -> Seq<char> {
        heading_line_spec(uppercase(self.heading)) + self.body
    }
}

impl View for Section {
    type V = SectionView;

    closed spec fn view(&self) -> SectionView {
        SectionView { heading: self.heading@, body: self.body@ }
    }
}

impl DeepView for Section {
    type V = SectionView;

    open spec fn deep_view(&self) -> SectionView {
        self@
    }
}

impl Section {
    /// A section with the given heading, whose body is the fragments joined
    /// in order, with every hyphen of the joined text escaped. A hyphen
    /// that a fragment had already escaped is escaped once more.
    pub fn new<C: Troffable>(heading: &str, content: &[C]) -> (section: Section)
        ensures
            section@ == (SectionView {
                heading: heading@,
                body: escape_spec(rendered_all(content@)),
            }),
    {
        let joined = render_all(content);
        Section { heading: heading.to_owned(), body: escape(joined.as_str()) }
    }

    /// The section as it is written out, given its heading in capitals.
    pub fn render_with_heading(&self, upper_heading: &str) -> (out: String)
        ensures
            out@ == heading_line_spec(upper_heading@) + self@.body,
    {
        let mut out = heading_line(upper_heading);
        out.append(self.body.as_str());
        out
    }

    /// Render the section: the heading line, with the heading in capitals,
    /// and the body.
    pub fn render(&self) -> (out: String)
        ensures
            out@ == self@.rendered(),
    {
        let upper_heading = self.heading.as_str().to_uppercase();
        self.render_with_heading(upper_heading.as_str())
    }
}

impl Troffable for Section {
    open spec fn rendered(&self) -> Seq<char> {
        self@.rendered()
    }

    fn render(&self) -> (out: String) {
        Section::render(self)
    }
}

/// The title of a page, in one of the two forms a page can be made with.
#[derive(Debug, PartialEq, Eq)]
enum PageTitle {
    Fields(Vec<String>),
    Typed(Title),
}

/// The mathematical value of the title of a page.
#[verifier::ext_equal]
pub enum PageTitleView {
    /// Fields that the caller formatted: they are written as they are.
    Fields(Seq<Seq<char>>),
    /// A name and a section of the manual, with the fields that were set.
    Typed(TitleView),
}

impl PageTitleView {
    /// The title line.
    pub open spec fn rendered(self) -> Seq<char> {
        match self {
            PageTitleView::Fields(fields) => title_line_spec(fields),
            PageTitleView::Typed(title) => title.rendered(),
        }
    }

    /// The title with its date set. Fields that the caller formatted stay
    /// as they are.
    pub open spec fn with_date(self, date: Seq<char>) -> PageTitleView {
        match self {
            PageTitleView::Fields(fields) => self,
            PageTitleView::Typed(title) => PageTitleView::Typed(
                TitleView { date: Some(date), ..title },
            ),
        }
    }

    /// The title with its source set. Fields that the caller formatted stay
    /// as they are.
    pub open spec fn with_source(self, source: Seq<char>) -> PageTitleView {
        match self {
            PageTitleView::Fields(fields) => self,
            PageTitleView::Typed(title) => PageTitleView::Typed(
                TitleView { source: Some(source), ..title },
            ),
        }
    }

    /// The title with its manual set. Fields that the caller formatted stay
    /// as they are.
    pub open spec fn with_manual(self, manual: Seq<char>) -> PageTitleView {
        match self {
            PageTitleView::Fields(fields) => self,
            PageTitleView::Typed(title) => PageTitleView::Typed(
                TitleView { manual: Some(manual), ..title },
            ),
        }
    }
}

impl View for PageTitle {
    type V = PageTitleView;

    closed spec fn view(&self) -> PageTitleView {
        match self {
            PageTitle::Fields(fields) => PageTitleView::Fields(fields.deep_view()),
            PageTitle::Typed(title) => PageTitleView::Typed(title@),
        }
    }
}

/// A manual page: a title and sections.
#[derive(Debug, PartialEq, Eq)]
pub struct ManPage {
    title: PageTitle,
    content: Vec<Section>,
}

/// The mathematical value of a [`ManPage`].
#[verifier::ext_equal]
pub struct ManPageView {
    pub title: PageTitleView,
    pub sections: Seq<SectionView>,
}

/// A section as it stands in a page: the section and a newline.
pub open spec fn rendered_section(section: SectionView) -> Seq<char> {
    section.rendered() + "\n"@
}

impl ManPageView {
    /// The page as it is written out: the title line, the lines that settle
    /// the typesetting, and the sections in order.
    pub open spec fn rendered(self) -> Seq<char> {
        self.title.rendered() + COMPATIBILITY@ + self.sections.flat_map(
            |section: SectionView| rendered_section(section),
        )
    }
}

impl View for ManPage {
    type V = ManPageView;

    closed spec fn view(&self) -> ManPageView {
        ManPageView { title: self.title@, sections: self.content.deep_view() }
    }
}

impl ManPage {
    /// A page with a name and a section of the manual, and no sections yet.
    pub fn new(name: &str, section: ManSection) -> (page: ManPage)
        ensures
            page@.title == PageTitleView::Typed(
                TitleView { name: name@, section, date: None, source: None, manual: None },
            ),
            page@.sections == Seq::<SectionView>::empty(),
    {
        let page = ManPage { title: PageTitle::Typed(Title::new(name, section)), content: Vec::new() };
        assert(page.content.deep_view() =~= Seq::<SectionView>::empty());
        page
    }

    /// A page whose title line holds the given fields, written as they are:
    /// for full control over the title. No sections yet.
    pub fn from_fields(fields: &[&str]) -> (page: ManPage)
        ensures
            page@.title == PageTitleView::Fields(fields.deep_view()),
            page@.sections == Seq::<SectionView>::empty(),
    {
        let page = ManPage { title: PageTitle::Fields(owned_strings(fields)), content: Vec::new() };
        assert(page.content.deep_view() =~= Seq::<SectionView>::empty());
        page
    }

    /// Set the date of the page.
    pub fn date(self, date: &str) -> (page: ManPage)
        ensures
            page@ == (ManPageView { title: self@.title.with_date(date@), ..self@ }),
    {
        let ManPage { title, content } = self;
        let title = match title {
            PageTitle::Fields(fields) => PageTitle::Fields(fields),
            PageTitle::Typed(title) => PageTitle::Typed(title.date(date)),
        };
        ManPage { title, content }
    }

    /// Set the source of the page.
    pub fn source(self, source: &str) -> (page: ManPage)
        ensures
            page@ == (ManPageView { title: self@.title.with_source(source@), ..self@ }),
    {
        let ManPage { title, content } = self;
        let title = match title {
            PageTitle::Fields(fields) => PageTitle::Fields(fields),
            PageTitle::Typed(title) => PageTitle::Typed(title.source(source)),
        };
        ManPage { title, content }
    }

    /// Set the name of the manual that the page belongs to.
    pub fn manual(self, manual: &str) -> (page: ManPage)
        ensures
            page@ == (ManPageView { title: self@.title.with_manual(manual@), ..self@ }),
    {
        let ManPage { title, content } = self;
        let title = match title {
            PageTitle::Fields(fields) => PageTitle::Fields(fields),
            PageTitle::Typed(title) => PageTitle::Typed(title.manual(manual)),
        };
        ManPage { title, content }
    }

    /// Add a section: a heading, which is put in capitals when the page is
    /// rendered, and the fragments of its body, which are joined and have
    /// their hyphens escaped at once.
    pub fn section<C: Troffable>(self, heading: &str, content: &[C]) -> (page: ManPage)
        ensures
            page@ == (ManPageView {
                sections: self@.sections.push(
                    SectionView { heading: heading@, body: escape_spec(rendered_all(content@)) },
                ),
                ..self@
            }),
    {
        let mut page = self;
        let ghost before = page.content.deep_view();
        let section = Section::new(heading, content);
        let ghost added = section@;
        page.content.push(section);
        assert(page.content.deep_view() =~= before.push(added));
        page
    }

    /// Render the title line of the page.
    fn render_title(&self) -> (out: String)
        ensures
            out@ == self@.title.rendered(),
    {
        match &self.title {
            PageTitle::Fields(fields) => title_line(fields.as_slice()),
            PageTitle::Typed(title) => title.render(),
        }
    }

    /// Render the page: the title line, the lines that settle the
    /// typesetting, and each section, in the order in which they were
    /// added, with a newline behind it.
    pub fn render(&self) -> (out: String)
        ensures
            out@ == self@.rendered(),
    {
        let mut out = self.render_title();
        out.append(COMPATIBILITY);
        let ghost head = out@;
        let mut i: usize = 0;
        while i < self.content.len()
            invariant
                i <= self.content.len(),
                head == self@.title.rendered() + COMPATIBILITY@,
                out@ == head + self@.sections.take(i as int).flat_map(
                    |section: SectionView| rendered_section(section),
                ),
            decreases self.content.len() - i,
        {
            proof {
                self@.sections.lemma_flat_map_take_append(
                    |section: SectionView| rendered_section(section),
                    i as int,
                );
            }
            let section = self.content[i].render();
            out.append(section.as_str());
            out.append("\n");
            i += 1;
        }
        proof {
            assert(self@.sections.take(self@.sections.len() as int) =~= self@.sections);
        }
        out
    }
}

impl Troffable for ManPage {
    open spec fn rendered(&self) -> Seq<char> {
        self@.rendered()
    }

    fn render(&self) -> (out: String) {
        ManPage::render(self)
    }
}

/// The order in which sections were added is the order in which they are
/// rendered: a section added to a page is rendered behind all that the page
/// held, and changes nothing of it.
pub proof fn lemma_added_section_renders_last(page: ManPageView, section: SectionView)
    ensures
        (ManPageView { sections: page.sections.push(section), ..page }).rendered()
            == page.rendered() + section.rendered() + "\n"@,
{
    page.sections.lemma_flat_map_push(|section: SectionView| rendered_section(section), section);
    let grown = ManPageView { sections: page.sections.push(section), ..page };
    assert(grown.rendered() =~= page.rendered() + section.rendered() + "\n"@);
}

/// A page without sections is its title line and the lines that settle the
/// typesetting.
pub proof fn lemma_page_without_sections(title: PageTitleView)
    ensures
        (ManPageView { title, sections: Seq::empty() }).rendered() == title.rendered()
            + COMPATIBILITY@,
{
    let none = Seq::<SectionView>::empty();
    assert(none.map_values(|section: SectionView| rendered_section(section)) =~= Seq::<
        Seq<char>,
    >::empty());
    assert((ManPageView { title, sections: none }).rendered() =~= title.rendered()
        + COMPATIBILITY@);
}

} // verus!
