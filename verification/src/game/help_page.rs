use vstd::prelude::*;
use crate::io::console::{Color, Key};
use crate::text::{decimal, push_decimal, push_str, chars_to_string, str_chars};

verus! {

/// The place of a heading: its section, sub section and sub sub section numbers.
#[derive(Debug, Clone, Copy, PartialEq, Eq, Structural, Hash)]
pub enum SectionLayer {
    Section(u32),
    SubSection(u32, u32),
    SubSubSection(u32, u32, u32),
}

impl SectionLayer {
    /// Sections are blue, sub sections green, sub sub sections cyan.
    pub fn get_heading_color(&self) -> (res: Color)
        ensures
            res == (match *self {
                SectionLayer::Section(..) => Color::Blue,
                SectionLayer::SubSection(..) => Color::Green,
                SectionLayer::SubSubSection(..) => Color::Cyan,
            }),
    {
        match self {
            SectionLayer::Section(..) => Color::Blue,
            SectionLayer::SubSection(..) => Color::Green,
            SectionLayer::SubSubSection(..) => Color::Cyan,
        }
    }
}

/// The model of a heading.
pub struct SectionLabelView {
    pub layer: SectionLayer,
    pub name: Seq<char>,
    pub page: u32,
}

/// A heading of the help page and the page it is on.
#[derive(Debug, Clone)]
pub struct SectionLabel {
    layer: SectionLayer,
    name: String,
    page: u32,
}

impl View for SectionLabel {
    type V = SectionLabelView;

    closed spec fn view(&self) -> SectionLabelView {
        SectionLabelView { layer: self.layer, name: self.name@, page: self.page }
    }
}

/// The number of a heading, such as `1.2.3`.
pub open spec fn layer_number(layer: SectionLayer) -> Seq<char> {
    match layer {
        SectionLayer::Section(a) => decimal(a as nat),
        SectionLayer::SubSection(a, b) => decimal(a as nat) + seq!['.'] + decimal(b as nat),
        SectionLayer::SubSubSection(a, b, c) => decimal(a as nat) + seq!['.'] + decimal(b as nat) + seq!['.']
            + decimal(c as nat),
    }
}

/// A heading in the text: its number and name.
pub open spec fn reference_text(l: SectionLabelView) -> Seq<char> {
    layer_number(l.layer) + seq![' '] + l.name
}

/// A heading in the table of contents: indented by its depth, then dots up to the page
/// number (counted from 1) at the end of `width` characters.
pub open spec fn page_entry_text(l: SectionLabelView, width: nat) -> Seq<char> {
    let indent = match l.layer {
        SectionLayer::Section(..) => seq![],
        SectionLayer::SubSection(..) => seq![' ', ' '],
        SectionLayer::SubSubSection(..) => seq![' ', ' ', ' ', ' ', ' ', ' '],
    };
    let heading = indent + reference_text(l);
    let page = decimal(l.page as nat + 1);
    heading + Seq::new((width - heading.len() - page.len()) as nat, |i: int| '.') + page
}

impl SectionLabel {
    pub fn new(layer: SectionLayer, name: &str, page: u32) -> (res: Self)
        ensures
            res@ == (SectionLabelView { layer, name: name@, page }),
    {
        SectionLabel { layer, name: String::from_str(name), page }
    }

    pub fn layer(&self) -> (res: SectionLayer)
        ensures
            res == self@.layer,
    {
        self.layer
    }

    pub fn name(&self) -> (res: &str)
        ensures
            res@ == self@.name,
    {
        self.name.as_str()
    }

    pub fn page(&self) -> (res: u32)
        ensures
            res == self@.page,
    {
        self.page
    }

    fn push_number(&self, out: &mut Vec<char>)
        ensures
            final(out)@ == old(out)@ + layer_number(self@.layer),
    {
        match self.layer {
            SectionLayer::Section(a) => {
                push_decimal(out, a as u64);
            },
            SectionLayer::SubSection(a, b) => {
                push_decimal(out, a as u64);
                out.push('.');
                push_decimal(out, b as u64);
            },
            SectionLayer::SubSubSection(a, b, c) => {
                push_decimal(out, a as u64);
                out.push('.');
                push_decimal(out, b as u64);
                out.push('.');
                push_decimal(out, c as u64);
            },
        }
        assert(final(out)@ =~= old(out)@ + layer_number(self@.layer));
    }

    /// The heading as it stands above its section (see [`reference_text`]).
    pub fn reference_text(&self) -> (res: String)
        ensures
            res@ == reference_text(self@),
    {
        let mut out: Vec<char> = Vec::new();
        self.push_number(&mut out);
        out.push(' ');
        push_str(&mut out, self.name.as_str());
        assert(out@ =~= reference_text(self@));
        chars_to_string(out.as_slice())
    }

    /// The heading as it stands in the table of contents (see [`page_entry_text`]); the
    /// heading and the page number must fit into `width`.
    pub fn page_entry_text(&self, width: usize) -> (res: String)
        requires
            page_entry_text_fits(self@, width as nat),
        ensures
            res@ == page_entry_text(self@, width as nat),
    {
        let mut out: Vec<char> = Vec::new();
        match self.layer {
            SectionLayer::Section(..) => {},
            SectionLayer::SubSection(..) => {
                out.push(' ');
                out.push(' ');
            },
            SectionLayer::SubSubSection(..) => {
                let mut i: usize = 0;
                while i < 6
                    invariant
                        i <= 6,
                        out@ == Seq::new(i as nat, |j: int| ' '),
                    decreases 6 - i,
                {
                    out.push(' ');
                    i += 1;
                    assert(out@ =~= Seq::new(i as nat, |j: int| ' '));
                }
            },
        }
        self.push_number(&mut out);
        out.push(' ');
        push_str(&mut out, self.name.as_str());
        let ghost heading = out@;
        let mut page: Vec<char> = Vec::new();
        push_decimal(&mut page, self.page as u64 + 1);
        assert(page@ =~= decimal(self@.page as nat + 1));
        assert(heading.len() + page@.len() <= width);
        let dots = width - out.len() - page.len();
        let mut i: usize = 0;
        while i < dots
            invariant
                i <= dots,
                out@ == heading + Seq::new(i as nat, |j: int| '.'),
            decreases dots - i,
        {
            out.push('.');
            i += 1;
            assert(out@ =~= heading + Seq::new(i as nat, |j: int| '.'));
        }
        let ghost before_page = out@;
        let mut k: usize = 0;
        while k < page.len()
            invariant
                k <= page@.len(),
                out@ == before_page + page@.take(k as int),
            decreases page@.len() - k,
        {
            out.push(page[k]);
            k += 1;
            assert(out@ =~= before_page + page@.take(k as int));
        }
        assert(page@.take(page@.len() as int) =~= page@);
        proof {
            let indent = match self@.layer {
                SectionLayer::Section(..) => Seq::<char>::empty(),
                SectionLayer::SubSection(..) => seq![' ', ' '],
                SectionLayer::SubSubSection(..) => seq![' ', ' ', ' ', ' ', ' ', ' '],
            };
            assert(heading =~= indent + reference_text(self@));
        }
        assert(out@ =~= page_entry_text(self@, width as nat));
        chars_to_string(out.as_slice())
    }
}

/// The heading and the page number of a label fit into `width` characters.
pub open spec fn page_entry_text_fits(l: SectionLabelView, width: nat) -> bool {
    let indent_len: nat = match l.layer {
        SectionLayer::Section(..) => 0,
        SectionLayer::SubSection(..) => 2,
        SectionLayer::SubSubSection(..) => 6,
    };
    indent_len + reference_text(l).len() + decimal(l.page as nat + 1).len() <= width
}

/// Numbers headings in order: a new section gets the next section number and restarts the
/// sub section numbers; a sub section the next sub section number and restarts the sub sub
/// section numbers.
#[derive(Debug, Clone, Copy, PartialEq, Eq, Structural)]
pub struct SectionLabelBuilder {
    pub next_section: u32,
    pub next_sub_section: u32,
    pub next_sub_sub_section: u32,
}

impl SectionLabelBuilder {
    pub fn new() -> (res: Self)
        ensures
            res == (SectionLabelBuilder { next_section: 0, next_sub_section: 0, next_sub_sub_section: 0 }),
    {
        SectionLabelBuilder { next_section: 0, next_sub_section: 0, next_sub_sub_section: 0 }
    }

    pub fn new_section(&mut self, name: &str) -> (res: SectionLabel)
        requires
            old(self).next_section < u32::MAX,
        ensures
            *final(self) == (SectionLabelBuilder {
                next_section: (old(self).next_section + 1) as u32,
                next_sub_section: 0,
                next_sub_sub_section: 0,
            }),
            res@ == (SectionLabelView { layer: SectionLayer::Section(final(self).next_section), name: name@, page: 0 }),
    {
        self.next_section += 1;
        self.next_sub_section = 0;
        self.next_sub_sub_section = 0;
        SectionLabel::new(SectionLayer::Section(self.next_section), name, 0)
    }

    pub fn new_sub_section(&mut self, name: &str) -> (res: SectionLabel)
        requires
            old(self).next_sub_section < u32::MAX,
        ensures
            *final(self) == (SectionLabelBuilder {
                next_sub_section: (old(self).next_sub_section + 1) as u32,
                next_sub_sub_section: 0,
                ..*old(self)
            }),
            res@ == (SectionLabelView {
                layer: SectionLayer::SubSection(final(self).next_section, final(self).next_sub_section),
                name: name@,
                page: 0,
            }),
    {
        self.next_sub_section += 1;
        self.next_sub_sub_section = 0;
        SectionLabel::new(SectionLayer::SubSection(self.next_section, self.next_sub_section), name, 0)
    }

    pub fn new_sub_sub_section(&mut self, name: &str) -> (res: SectionLabel)
        requires
            old(self).next_sub_sub_section < u32::MAX,
        ensures
            *final(self) == (SectionLabelBuilder {
                next_sub_sub_section: (old(self).next_sub_sub_section + 1) as u32,
                ..*old(self)
            }),
            res@ == (SectionLabelView {
                layer: SectionLayer::SubSubSection(
                    final(self).next_section,
                    final(self).next_sub_section,
                    final(self).next_sub_sub_section,
                ),
                name: name@,
                page: 0,
            }),
    {
        self.next_sub_sub_section += 1;
        SectionLabel::new(
            SectionLayer::SubSubSection(self.next_section, self.next_sub_section, self.next_sub_sub_section),
            name,
            0,
        )
    }
}

/// How deep a heading stands.
#[derive(Debug, Clone, Copy, PartialEq, Eq, Structural, Hash)]
pub enum HeadingDepth {
    Section,
    SubSection,
    SubSubSection,
}

/// The numbers after one more heading of depth `d`: a section takes the next section
/// number and restarts the sub numbers, a sub section takes the next sub section number and
/// restarts the sub sub section numbers, a sub sub section takes the next sub sub number.
pub open spec fn builder_step(b: SectionLabelBuilder, d: HeadingDepth) -> SectionLabelBuilder {
    match d {
        HeadingDepth::Section => SectionLabelBuilder {
            next_section: (b.next_section + 1) as u32,
            next_sub_section: 0,
            next_sub_sub_section: 0,
        },
        HeadingDepth::SubSection => SectionLabelBuilder {
            next_sub_section: (b.next_sub_section + 1) as u32,
            next_sub_sub_section: 0,
            ..b
        },
        HeadingDepth::SubSubSection => SectionLabelBuilder {
            next_sub_sub_section: (b.next_sub_sub_section + 1) as u32,
            ..b
        },
    }
}

/// The place of a heading of depth `d` whose numbers are `b` (after [`builder_step`]).
pub open spec fn depth_layer(b: SectionLabelBuilder, d: HeadingDepth) -> SectionLayer {
    match d {
        HeadingDepth::Section => SectionLayer::Section(b.next_section),
        HeadingDepth::SubSection => SectionLayer::SubSection(b.next_section, b.next_sub_section),
        HeadingDepth::SubSubSection => SectionLayer::SubSubSection(
            b.next_section,
            b.next_sub_section,
            b.next_sub_sub_section,
        ),
    }
}

/// The numbers after the headings of an outline, counted from no heading.
pub open spec fn builder_after(outline: Seq<(HeadingDepth, Seq<char>, nat)>) -> SectionLabelBuilder
    decreases outline.len(),
{
    if outline.len() == 0 {
        SectionLabelBuilder { next_section: 0, next_sub_section: 0, next_sub_sub_section: 0 }
    } else {
        builder_step(builder_after(outline.drop_last()), outline.last().0)
    }
}

/// The numbered headings of an outline (each on page 0), each with its number of lines.
pub open spec fn numbered_sections(outline: Seq<(HeadingDepth, Seq<char>, nat)>) -> Seq<(SectionLabelView, nat)>
    decreases outline.len(),
{
    if outline.len() == 0 {
        seq![]
    } else {
        let e = outline.last();
        numbered_sections(outline.drop_last()).push(
            (
                SectionLabelView {
                    layer: depth_layer(builder_after(outline), e.0),
                    name: e.1,
                    page: 0,
                },
                e.2,
            ),
        )
    }
}

/// The sections of the help text of the terminal game: the depth and name of each heading
/// and the number of lines below it.
pub open spec fn spec_help_outline() -> Seq<(HeadingDepth, Seq<char>, nat)> {
    seq![
        (HeadingDepth::Section, "Basic controls"@, 0nat),
        (HeadingDepth::SubSection, "Keyboard"@, 7nat),
        (HeadingDepth::SubSubSection, "Level (pack) selection"@, 2nat),
        (HeadingDepth::SubSubSection, "Game controls"@, 5nat),
        (HeadingDepth::SubSection, "Mouse input"@, 5nat),
        (HeadingDepth::SubSubSection, "Level (pack) selection"@, 5nat),
        (HeadingDepth::SubSubSection, "Help menu"@, 2nat),
        (HeadingDepth::Section, "Gameplay"@, 1nat),
        (HeadingDepth::SubSection, "Gameplay elements"@, 12nat),
        (HeadingDepth::Section, "Editor"@, 0nat),
        (HeadingDepth::SubSection, "Controls"@, 0nat),
        (HeadingDepth::SubSubSection, "Level pack selection"@, 5nat),
        (HeadingDepth::SubSubSection, "Level pack editor / Level selection"@, 8nat),
        (HeadingDepth::SubSubSection, "Level editor (Playing mode)"@, 5nat),
        (HeadingDepth::SubSubSection, "Level editor (Editing mode)"@, 12nat),
        (HeadingDepth::SubSubSection, "Level editor (Editing mode - Tiles)"@, 18nat),
        (HeadingDepth::SubSubSection, "Level editor (Editing mode - Tiles) [continuation]"@, 3nat),
        (HeadingDepth::SubSubSection, "Level editor (Editing mode - Decoration tiles)"@, 3nat),
        (HeadingDepth::Section, "Command-line arguments"@, 1nat),
    ]
}

/// The sections of the help text (see [`spec_help_outline`]).
pub fn help_outline() -> (res: Vec<(HeadingDepth, &'static str, usize)>)
    ensures
        res@.map_values(|e: (HeadingDepth, &'static str, usize)| (e.0, e.1@, e.2 as nat)) == spec_help_outline(),
{
    let res = vec![
        (HeadingDepth::Section, "Basic controls", 0usize),
        (HeadingDepth::SubSection, "Keyboard", 7usize),
        (HeadingDepth::SubSubSection, "Level (pack) selection", 2usize),
        (HeadingDepth::SubSubSection, "Game controls", 5usize),
        (HeadingDepth::SubSection, "Mouse input", 5usize),
        (HeadingDepth::SubSubSection, "Level (pack) selection", 5usize),
        (HeadingDepth::SubSubSection, "Help menu", 2usize),
        (HeadingDepth::Section, "Gameplay", 1usize),
        (HeadingDepth::SubSection, "Gameplay elements", 12usize),
        (HeadingDepth::Section, "Editor", 0usize),
        (HeadingDepth::SubSection, "Controls", 0usize),
        (HeadingDepth::SubSubSection, "Level pack selection", 5usize),
        (HeadingDepth::SubSubSection, "Level pack editor / Level selection", 8usize),
        (HeadingDepth::SubSubSection, "Level editor (Playing mode)", 5usize),
        (HeadingDepth::SubSubSection, "Level editor (Editing mode)", 12usize),
        (HeadingDepth::SubSubSection, "Level editor (Editing mode - Tiles)", 18usize),
        (HeadingDepth::SubSubSection, "Level editor (Editing mode - Tiles) [continuation]", 3usize),
        (HeadingDepth::SubSubSection, "Level editor (Editing mode - Decoration tiles)", 3usize),
        (HeadingDepth::Section, "Command-line arguments", 1usize),
    ];
    assert(res@.map_values(|e: (HeadingDepth, &'static str, usize)| (e.0, e.1@, e.2 as nat)) =~= spec_help_outline());
    res
}

/// Numbers the headings of an outline (see [`numbered_sections`]).
pub fn number_sections(outline: &[(HeadingDepth, &str, usize)]) -> (res: Vec<(SectionLabel, usize)>)
    requires
        outline@.len() < u32::MAX,
    ensures
        res@.map_values(|s: (SectionLabel, usize)| (s.0@, s.1 as nat)) == numbered_sections(
            outline@.map_values(|e: (HeadingDepth, &str, usize)| (e.0, e.1@, e.2 as nat)),
        ),
{
    let ghost ov = outline@.map_values(|e: (HeadingDepth, &str, usize)| (e.0, e.1@, e.2 as nat));
    let mut builder = SectionLabelBuilder::new();
    let mut res: Vec<(SectionLabel, usize)> = Vec::new();
    let mut i: usize = 0;
    while i < outline.len()
        invariant
            i <= outline@.len() < u32::MAX,
            ov == outline@.map_values(|e: (HeadingDepth, &str, usize)| (e.0, e.1@, e.2 as nat)),
            builder == builder_after(ov.take(i as int)),
            builder.next_section <= i,
            builder.next_sub_section <= i,
            builder.next_sub_sub_section <= i,
            res@.map_values(|s: (SectionLabel, usize)| (s.0@, s.1 as nat)) == numbered_sections(ov.take(i as int)),
        decreases outline@.len() - i,
    {
        let (depth, name, count) = outline[i];
        let label = match depth {
            HeadingDepth::Section => builder.new_section(name),
            HeadingDepth::SubSection => builder.new_sub_section(name),
            HeadingDepth::SubSubSection => builder.new_sub_sub_section(name),
        };
        let ghost before = res@;
        res.push((label, count));
        proof {
            let t = ov.take(i + 1);
            assert(t.drop_last() =~= ov.take(i as int));
            assert(t.last() == ov[i as int]);
            assert(ov[i as int] == (depth, name@, count as nat));
            assert(res@.map_values(|s: (SectionLabel, usize)| (s.0@, s.1 as nat)) =~= before.map_values(
                |s: (SectionLabel, usize)| (s.0@, s.1 as nat),
            ).push((label@, count as nat)));
        }
        i += 1;
    }
    assert(ov.take(outline@.len() as int) =~= ov);
    res
}

/// The numbered sections of the help text (see [`spec_help_outline`]).
pub fn help_sections() -> (res: Vec<(SectionLabel, usize)>)
    ensures
        res@.map_values(|s: (SectionLabel, usize)| (s.0@, s.1 as nat)) == numbered_sections(spec_help_outline()),
{
    let outline = help_outline();
    assert(outline@.len() == 19) by {
        assert(outline@.map_values(|e: (HeadingDepth, &'static str, usize)| (e.0, e.1@, e.2 as nat)).len() == 19);
    }
    number_sections(outline.as_slice())
}

/// Numbering keeps the length of an outline and each section's number of lines.
proof fn lemma_numbered_sections_counts(outline: Seq<(HeadingDepth, Seq<char>, nat)>)
    ensures
        numbered_sections(outline).len() == outline.len(),
        forall|k: int| 0 <= k < outline.len() ==> #[trigger] numbered_sections(outline)[k].1 == outline[k].2,
    decreases outline.len(),
{
    if outline.len() > 0 {
        lemma_numbered_sections_counts(outline.drop_last());
        assert forall|k: int| 0 <= k < outline.len() implies #[trigger] numbered_sections(outline)[k].1
            == outline[k].2 by {
            if k < outline.len() - 1 {
                assert(numbered_sections(outline)[k] == numbered_sections(outline.drop_last())[k]);
                assert(outline.drop_last()[k] == outline[k]);
            }
        }
    }
}

/// The pages of a table of `len` entries with `entries_per_page` on each page.
pub open spec fn spec_page_count(len: nat, entries_per_page: nat) -> nat {
    if len == 0 {
        0
    } else {
        (((len - 1) as nat) / entries_per_page + 1) as nat
    }
}

/// The table of contents: one entry per heading.
#[derive(Debug, Clone)]
pub struct TableOfContents {
    sections: Vec<SectionLabel>,
}

impl View for TableOfContents {
    type V = Seq<SectionLabelView>;

    closed spec fn view(&self) -> Seq<SectionLabelView> {
        self.sections@.map_values(|s: SectionLabel| s@)
    }
}

impl TableOfContents {
    pub fn new(sections: Vec<SectionLabel>) -> (res: Self)
        ensures
            res@ == sections@.map_values(|s: SectionLabel| s@),
    {
        TableOfContents { sections }
    }

    pub fn sections(&self) -> (res: &[SectionLabel])
        ensures
            res@.map_values(|s: SectionLabel| s@) == self@,
    {
        self.sections.as_slice()
    }

    /// The number of pages with `entries_per_page` entries each (see [`spec_page_count`]).
    pub fn page_count(&self, entries_per_page: usize) -> (res: usize)
        requires
            self@.len() > 0 ==> entries_per_page > 0,
        ensures
            res == spec_page_count(self@.len(), entries_per_page as nat),
    {
        if self.sections.len() == 0 {
            0
        } else {
            (self.sections.len() - 1) / entries_per_page + 1
        }
    }

    /// The page of the heading at row `row` of page `page`, where a page holds `height`
    /// entries; `None` where there is no such entry.
    pub fn get_page_mouse_clicked(&self, height: usize, page: u32, row: u32) -> (res: Option<u32>)
        ensures
            res == (if height * page + row < self@.len() {
                Some(self@[height * page + row].page)
            } else {
                None::<u32>
            }),
    {
        let n = self.sections.len();
        assert(n == self@.len());
        proof {
            assert(height * page >= 0) by (nonlinear_arith)
                requires
                    height >= 0,
                    page >= 0,
            ;
        }
        let index = match height.checked_mul(page as usize) {
            Some(v) => match v.checked_add(row as usize) {
                Some(i) => i,
                None => {
                    assert(height * page + row > n);
                    return None;
                },
            },
            None => {
                assert(height * page + row > n);
                return None;
            },
        };
        if index < self.sections.len() {
            Some(self.sections[index].page)
        } else {
            None
        }
    }
}

/// The rows a section takes: its heading, and where it has lines, its lines and an empty row.
pub open spec fn section_height(lines: nat) -> nat {
    if lines == 0 {
        1
    } else {
        lines + 2
    }
}

/// Where the sections go so far: the current page, the first section on it, how many are on
/// it and how many rows they take, where each finished page starts (first section and count;
/// the first entry for the last page of the table of contents), and the page of each section.
pub struct Pagination {
    pub current_page: nat,
    pub start_index: nat,
    pub section_count: nat,
    pub content_height: nat,
    pub starts: Seq<(nat, nat)>,
    pub pages: Seq<nat>,
}

/// Putting the sections on pages of `page_height` rows after `toc_pages` pages of table of
/// contents: a section (not a sub section) starts a new page, and so does a section that no
/// longer fits on the current one. Each section is `(is a section, number of lines)`.
pub open spec fn paginate(sections: Seq<(bool, nat)>, page_height: nat, toc_pages: nat) -> Pagination
    decreases sections.len(),
{
    if sections.len() == 0 {
        Pagination {
            current_page: (toc_pages - 1) as nat,
            start_index: 0,
            section_count: 0,
            content_height: 0,
            starts: seq![],
            pages: seq![],
        }
    } else {
        let p = paginate(sections.drop_last(), page_height, toc_pages);
        let i = (sections.len() - 1) as nat;
        let h = section_height(sections.last().1);
        if sections.last().0 || p.content_height + h > page_height {
            Pagination {
                current_page: p.current_page + 1,
                start_index: i,
                section_count: 1,
                content_height: h,
                starts: p.starts.push((p.start_index, p.section_count)),
                pages: p.pages.push(p.current_page + 1),
            }
        } else {
            Pagination {
                section_count: p.section_count + 1,
                content_height: p.content_height + h,
                pages: p.pages.push(p.current_page),
                ..p
            }
        }
    }
}

/// The model of the help page.
pub struct HelpPageView {
    pub toc: Seq<SectionLabelView>,
    pub line_counts: Seq<nat>,
    pub starts: Seq<(usize, usize)>,
    pub first_start_page: nat,
    pub width: usize,
    pub height: usize,
    pub page_count: u32,
    pub page: u32,
}

impl HelpPageView {
    /// The page shown is one of the pages, and every heading is on one of them.
    pub open spec fn wf(self) -> bool {
        &&& self.page_count >= 1
        &&& self.page < self.page_count
        &&& forall|k: int| 0 <= k < self.toc.len() ==> (#[trigger] self.toc[k]).page < self.page_count
        &&& self.height >= 5
    }
}

/// The page before (`Key::UP`) or after (`Key::DOWN`), going round; other keys change nothing.
pub open spec fn spec_flip_page(page: u32, page_count: u32, key: Key) -> u32 {
    if key@ == Key::UP {
        if page == 0 {
            (page_count - 1) as u32
        } else {
            (page - 1) as u32
        }
    } else if key@ == Key::DOWN {
        if page == page_count - 1 {
            0
        } else {
            (page + 1) as u32
        }
    } else {
        page
    }
}

/// Turning a page forward and then back, or back and then forward, comes back to the page
/// one started on; either way the page stays among the pages there are.
pub proof fn lemma_flip_page_undo(page: u32, page_count: u32)
    requires
        page < page_count,
    ensures
        spec_flip_page(page, page_count, Key::from_code_spec(Key::UP)) < page_count,
        spec_flip_page(page, page_count, Key::from_code_spec(Key::DOWN)) < page_count,
        spec_flip_page(
            spec_flip_page(page, page_count, Key::from_code_spec(Key::DOWN)),
            page_count,
            Key::from_code_spec(Key::UP),
        ) == page,
        spec_flip_page(
            spec_flip_page(page, page_count, Key::from_code_spec(Key::UP)),
            page_count,
            Key::from_code_spec(Key::DOWN),
        ) == page,
{
    Key::lemma_from_code(Key::UP);
    Key::lemma_from_code(Key::DOWN);
}

/// A click at `(column, row)` on a console `height` rows high: a row of the table of
/// contents goes to the page of its heading (counting `height` entries per page), and the
/// first eight columns of the last row go to the next page. The page after it, and whether
/// a page was turned.
pub open spec fn help_click(h: HelpPageView, height: usize, column: usize, row: usize) -> (HelpPageView, bool) {
    let clicked = 2 <= row < height - 2 && height * h.page + (row - 2) < h.toc.len();
    let page1 = if clicked {
        h.toc[height * h.page + (row - 2)].page
    } else {
        h.page
    };
    let next = row == height - 1 && column < 8;
    (
        HelpPageView {
            page: if next { spec_flip_page(page1, h.page_count, Key::from_code_spec(Key::DOWN)) } else { page1 },
            ..h
        },
        clicked || next,
    )
}

/// The help page: a table of contents, then the sections, page by page.
pub struct HelpPage {
    table_of_contents: TableOfContents,
    line_counts: Vec<usize>,
    starts: Vec<(usize, usize)>,
    first_start_page: u32,
    width: usize,
    height: usize,
    page_count: u32,
    page: u32,
}

impl View for HelpPage {
    type V = HelpPageView;

    closed spec fn view(&self) -> HelpPageView {
        HelpPageView {
            toc: self.table_of_contents@,
            line_counts: self.line_counts@.map_values(|c: usize| c as nat),
            starts: self.starts@,
            first_start_page: self.first_start_page as nat,
            width: self.width,
            height: self.height,
            page_count: self.page_count,
            page: self.page,
        }
    }
}

pub open spec fn section_kinds(sections: Seq<(SectionLabelView, nat)>) -> Seq<(bool, nat)> {
    sections.map_values(|s: (SectionLabelView, nat)| (s.0.layer is Section, s.1))
}

proof fn lemma_paginate_bounds(sections: Seq<(bool, nat)>, page_height: nat, toc_pages: nat)
    requires
        toc_pages >= 1,
    ensures
        paginate(sections, page_height, toc_pages).pages.len() == sections.len(),
        paginate(sections, page_height, toc_pages).current_page <= toc_pages - 1 + sections.len(),
        paginate(sections, page_height, toc_pages).current_page >= toc_pages - 1,
        forall|k: int| 0 <= k < sections.len() ==> #[trigger] paginate(sections, page_height, toc_pages).pages[k]
            <= paginate(sections, page_height, toc_pages).current_page,
        paginate(sections, page_height, toc_pages).starts.len() == paginate(sections, page_height, toc_pages).current_page
            - (toc_pages - 1),
        paginate(sections, page_height, toc_pages).start_index + paginate(sections, page_height, toc_pages).section_count
            <= sections.len(),
        sections.len() > 0 ==> paginate(sections, page_height, toc_pages).content_height <= page_height
            || paginate(sections, page_height, toc_pages).section_count == 1,
    decreases sections.len(),
{
    if sections.len() > 0 {
        lemma_paginate_bounds(sections.drop_last(), page_height, toc_pages);
    }
}

/// The help page laid out from `sv`, each heading with the number of its lines: the
/// headings with the pages they are on (see [`paginate`]), the line counts, the first
/// section and number of sections of each page, the number of pages, and the first page shown.
pub open spec fn help_layout(h: HelpPageView, width: usize, height: usize, sv: Seq<(SectionLabelView, nat)>) -> bool {
    let toc_pages = ((sv.len() - 1) as nat) / ((height - 4) as nat) + 1;
    let p = paginate(section_kinds(sv), (height - 4) as nat, toc_pages);
    &&& h.wf()
    &&& h.toc.len() == sv.len()
    &&& forall|k: int| 0 <= k < sv.len() ==> (#[trigger] h.toc[k]) == (SectionLabelView {
        page: p.pages[k] as u32,
        ..sv[k].0
    })
    &&& h.line_counts == sv.map_values(|s: (SectionLabelView, nat)| s.1)
    &&& h.starts == p.starts.push((p.start_index, p.section_count)).map_values(
        |e: (nat, nat)| (e.0 as usize, e.1 as usize),
    )
    &&& h.first_start_page == toc_pages - 1
    &&& h.page_count == p.current_page + 1
    &&& h.page == 0
    &&& h.width == width
    &&& h.height == height
}

impl HelpPage {
    /// Lays out the sections, each given with the number of its lines, on pages of
    /// `height - 4` rows (see [`paginate`]); the help page starts at its first page.
    pub fn new(width: usize, height: usize, sections: Vec<(SectionLabel, usize)>) -> (res: Self)
        requires
            height >= 5,
            height < 0x1000_0000,
            sections@.len() >= 1,
            2 * sections@.len() < u32::MAX,
            forall|k: int| 0 <= k < sections@.len() ==> (#[trigger] sections@[k]).1 < 0x1000_0000,
        ensures
            help_layout(res@, width, height, sections@.map_values(|s: (SectionLabel, usize)| (s.0@, s.1 as nat))),
    {
        let ghost sv = sections@.map_values(|s: (SectionLabel, usize)| (s.0@, s.1 as nat));
        let ghost kinds = section_kinds(sv);
        let page_height = height - 4;
        let n = sections.len();
        let toc_pages = (n - 1) / page_height + 1;
        assert(toc_pages <= n) by (nonlinear_arith)
            requires
                toc_pages == ((n - 1) as nat) / (page_height as nat) + 1,
                page_height >= 1,
                n >= 1,
        ;
        let mut current_page: u32 = (toc_pages - 1) as u32;
        let mut start_index: usize = 0;
        let mut section_count: usize = 0;
        let mut content_height: usize = 0;
        let mut starts: Vec<(usize, usize)> = Vec::new();
        let mut labels: Vec<SectionLabel> = Vec::new();
        let mut line_counts: Vec<usize> = Vec::new();
        let mut i: usize = 0;
        assert(kinds.take(0) =~= Seq::<(bool, nat)>::empty());
        while i < n
            invariant
                i <= n == sections@.len() == sv.len() == kinds.len(),
                page_height == height - 4,
                height < 0x1000_0000,
                2 * n < u32::MAX,
                toc_pages == ((n - 1) as nat) / (page_height as nat) + 1,
                1 <= toc_pages <= n,
                sv == sections@.map_values(|s: (SectionLabel, usize)| (s.0@, s.1 as nat)),
                kinds == section_kinds(sv),
                forall|k: int| 0 <= k < sections@.len() ==> (#[trigger] sections@[k]).1 < 0x1000_0000,
                ({
                    let p = paginate(kinds.take(i as int), page_height as nat, toc_pages as nat);
                    &&& current_page == p.current_page
                    &&& start_index == p.start_index
                    &&& section_count == p.section_count
                    &&& content_height == p.content_height
                    &&& starts@ == p.starts.map_values(|e: (nat, nat)| (e.0 as usize, e.1 as usize))
                    &&& labels@.len() == i
                    &&& forall|k: int| 0 <= k < i ==> (#[trigger] labels@[k])@ == (SectionLabelView {
                        page: p.pages[k] as u32,
                        ..sv[k].0
                    })
                }),
                content_height < 0x2000_0000,
                line_counts@ == sv.take(i as int).map_values(|s: (SectionLabelView, nat)| s.1).map_values(|c: nat| c as usize),
            decreases n - i,
        {
            proof {
                lemma_paginate_bounds(kinds.take(i as int), page_height as nat, toc_pages as nat);
                assert(kinds.take(i + 1).drop_last() =~= kinds.take(i as int));
                assert(kinds.take(i + 1).last() == kinds[i as int]);
            }
            let label = &sections[i].0;
            let lines: usize = sections[i].1;
            assert(lines == sections@[i as int].1);
            assert(lines < 0x1000_0000);
            assert(label@ == sv[i as int].0);
            let this_height = if lines == 0 {
                1
            } else {
                2 + lines
            };
            let is_section = match label.layer {
                SectionLayer::Section(..) => true,
                _ => false,
            };
            assert(kinds[i as int] == (is_section, lines as nat));
            assert(this_height == section_height(lines as nat));
            let ghost p_old = paginate(kinds.take(i as int), page_height as nat, toc_pages as nat);
            let ghost p_new = paginate(kinds.take(i + 1), page_height as nat, toc_pages as nat);
            let ghost old_labels = labels@;
            if is_section || content_height + this_height > page_height {
                starts.push((start_index, section_count));
                current_page += 1;
                start_index = i;
                section_count = 0;
                content_height = 0;
                assert(starts@ =~= p_new.starts.map_values(|e: (nat, nat)| (e.0 as usize, e.1 as usize)));
            }
            let name = label.name.clone();
            labels.push(SectionLabel { layer: label.layer, name, page: current_page });
            section_count += 1;
            content_height += this_height;
            let ghost old_counts = line_counts@;
            line_counts.push(lines);
            i += 1;
            proof {
                assert(current_page == p_new.current_page);
                assert(p_new.pages == p_old.pages.push(current_page as nat));
                assert forall|k: int| 0 <= k < i implies (#[trigger] labels@[k])@ == (SectionLabelView {
                    page: p_new.pages[k] as u32,
                    ..sv[k].0
                }) by {
                    if k < i - 1 {
                        assert(labels@[k] == old_labels[k]);
                    }
                }
                assert(line_counts@ =~= sv.take(i as int).map_values(|s: (SectionLabelView, nat)| s.1).map_values(
                    |c: nat| c as usize,
                ));
            }
        }
        assert(kinds.take(n as int) =~= kinds);
        proof {
            lemma_paginate_bounds(kinds, page_height as nat, toc_pages as nat);
        }
        let ghost pf = paginate(kinds, page_height as nat, toc_pages as nat);
        starts.push((start_index, section_count));
        let res = HelpPage {
            table_of_contents: TableOfContents::new(labels),
            line_counts,
            starts,
            first_start_page: (toc_pages - 1) as u32,
            width,
            height,
            page_count: current_page + 1,
            page: 0,
        };
        proof {
            assert(res@.starts =~= pf.starts.push((pf.start_index, pf.section_count)).map_values(
                |e: (nat, nat)| (e.0 as usize, e.1 as usize),
            ));
            assert(sv.take(n as int) =~= sv);
            assert(res@.line_counts =~= sv.map_values(|s: (SectionLabelView, nat)| s.1));
            assert(res@.toc =~= labels@.map_values(|s: SectionLabel| s@));
            assert forall|k: int| 0 <= k < res@.toc.len() implies (#[trigger] res@.toc[k]).page < res@.page_count by {
                assert(res@.toc[k] == labels@[k]@);
            }
        }
        res
    }
}

impl HelpPage {
    /// The help text laid out on a console of `width` by `height` characters (see
    /// [`help_sections`] and [`help_layout`]).
    pub fn with_help_text(width: usize, height: usize) -> (res: Self)
        requires
            height >= 5,
            height < 0x1000_0000,
        ensures
            help_layout(res@, width, height, numbered_sections(spec_help_outline())),
    {
        let sections = help_sections();
        proof {
            let o = spec_help_outline();
            lemma_numbered_sections_counts(o);
            assert(forall|k: int| 0 <= k < o.len() ==> #[trigger] o[k].2 < 19);
            let sv = sections@.map_values(|s: (SectionLabel, usize)| (s.0@, s.1 as nat));
            assert(sv.len() == 19);
            assert forall|k: int| 0 <= k < sections@.len() implies (#[trigger] sections@[k]).1 < 0x1000_0000 by {
                assert(sv[k].1 == sections@[k].1 as nat);
                assert(sv[k].1 == o[k].2);
            }
        }
        Self::new(width, height, sections)
    }

    pub fn table_of_contents(&self) -> (res: &TableOfContents)
        ensures
            res@ == self@.toc,
    {
        &self.table_of_contents
    }

    pub fn page(&self) -> (res: u32)
        ensures
            res == self@.page,
    {
        self.page
    }

    pub fn page_count(&self) -> (res: u32)
        ensures
            res == self@.page_count,
    {
        self.page_count
    }

    pub fn width(&self) -> (res: usize)
        ensures
            res == self@.width,
    {
        self.width
    }

    pub fn height(&self) -> (res: usize)
        ensures
            res == self@.height,
    {
        self.height
    }

    /// The number of lines of each section.
    pub fn line_counts(&self) -> (res: &[usize])
        ensures
            res@.map_values(|c: usize| c as nat) == self@.line_counts,
    {
        self.line_counts.as_slice()
    }

    /// Whether the page shown is a page of the table of contents.
    pub fn is_table_of_contents_page(&self) -> (res: bool)
        requires
            self@.wf(),
        ensures
            res == (self@.page < spec_page_count(self@.toc.len(), (self@.height - 4) as nat)),
    {
        (self.page as usize) < self.table_of_contents.page_count(self.height - 4)
    }

    /// The first section and the number of sections on the page shown, where it is a page of
    /// sections.
    pub fn page_sections(&self) -> (res: Option<(usize, usize)>)
        ensures
            res == (if self@.first_start_page <= self@.page < self@.first_start_page + self@.starts.len() {
                Some(self@.starts[self@.page - self@.first_start_page])
            } else {
                None::<(usize, usize)>
            }),
    {
        if self.page < self.first_start_page {
            return None;
        }
        let k = (self.page - self.first_start_page) as usize;
        if k < self.starts.len() {
            Some(self.starts[k])
        } else {
            None
        }
    }

    /// Goes to the page before (`Key::UP`) or after (`Key::DOWN`), round the ends (see
    /// [`spec_flip_page`]); whether the page was turned.
    pub fn on_key_pressed(&mut self, key: Key) -> (res: bool)
        requires
            old(self)@.wf(),
        ensures
            res == (key@ == Key::UP || key@ == Key::DOWN),
            final(self)@ == (HelpPageView {
                page: spec_flip_page(old(self)@.page, old(self)@.page_count, key),
                ..old(self)@
            }),
            final(self)@.wf(),
    {
        let k = key.code();
        if k == Key::UP {
            self.page = if self.page == 0 {
                self.page_count - 1
            } else {
                self.page - 1
            };
            true
        } else if k == Key::DOWN {
            self.page = if self.page == self.page_count - 1 {
                0
            } else {
                self.page + 1
            };
            true
        } else {
            false
        }
    }

    /// A click at `(column, row)` on a console `height` rows high: a row of the table of
    /// contents goes to the page of its heading (counting `height` entries per page), and
    /// the first eight columns of the last row go to the next page. Whether a page was
    /// turned.
    pub fn on_mouse_pressed(&mut self, height: usize, column: usize, row: usize) -> (res: bool)
        requires
            old(self)@.wf(),
            height >= 1,
            row >= 2 ==> height >= 2,
            height <= u32::MAX,
        ensures
            (final(self)@, res) == help_click(old(self)@, height, column, row),
            final(self)@.wf(),
    {
        let mut flipped = false;
        if row >= 2 && row < height - 2 {
            match self.table_of_contents.get_page_mouse_clicked(height, self.page, (row - 2) as u32) {
                Some(page_clicked) => {
                    proof {
                        let idx = height * old(self)@.page + (row - 2);
                        assert(self@.toc[idx].page == page_clicked);
                    }
                    self.page = page_clicked;
                    flipped = true;
                },
                None => {},
            }
        }
        if row == height - 1 && column < 8 {
            let down = Key::from_code(Key::DOWN);
            self.on_key_pressed(down);
            flipped = true;
        }
        flipped
    }
}

} // verus!
