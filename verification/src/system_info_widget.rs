//! The directory summary panel: three columns of labelled figures.
use vstd::prelude::*;
use crate::layout::{KeyCode, Rect};
use crate::logs::{FileInfo, LogsInfo};
use crate::text::{decimal, push_decimal};

verus! {

/// The colour of a piece of text in the panel.
#[derive(Debug, Clone, Copy, PartialEq, Eq, Structural)]
pub enum InfoColor {
    Cyan,
    Yellow,
    Green,
    Magenta,
    Blue,
    Red,
    DarkGray,
    White,
}

/// How a piece of text is drawn: its colour (the default when none) and
/// whether it is bold.
#[derive(Debug, Clone, Copy, PartialEq, Eq, Structural)]
pub struct TextStyle {
    pub color: Option<InfoColor>,
    pub bold: bool,
}

/// A piece of text with its style.
pub type InfoSpan = (String, TextStyle);

/// A line as plain values.
pub open spec fn line_view(l: Vec<InfoSpan>) -> Seq<(Seq<char>, TextStyle)> {
    l@.map_values(|s: InfoSpan| (s.0@, s.1))
}

/// A column as plain values.
pub open spec fn column_view(c: Vec<Vec<InfoSpan>>) -> Seq<Seq<(Seq<char>, TextStyle)>> {
    c@.map_values(|l: Vec<InfoSpan>| line_view(l))
}

pub open spec fn plain() -> TextStyle {
    TextStyle { color: None, bold: false }
}

pub open spec fn colored(c: InfoColor) -> TextStyle {
    TextStyle { color: Some(c), bold: false }
}

pub open spec fn heading(c: InfoColor) -> TextStyle {
    TextStyle { color: Some(c), bold: true }
}

/// A line of a label in green followed by a value.
pub open spec fn figure(label: Seq<char>, value: Seq<char>, style: TextStyle) -> Seq<(Seq<char>, TextStyle)> {
    seq![(label, colored(InfoColor::Green)), (value, style)]
}

/// The first column: the directory and the overall figures.
pub open spec fn overall_column(info: LogsInfo) -> Seq<Seq<(Seq<char>, TextStyle)>> {
    seq![
        seq![("Directory: "@, heading(InfoColor::Cyan))],
        seq![(info.directory_path@, plain())],
        seq![(""@, plain())],
        seq![("Overall Statistics"@, heading(InfoColor::Yellow))],
        figure("Files:  "@, decimal(info.total_files as nat), plain()),
        figure("Size:   "@, info.total_size_formatted@, colored(InfoColor::Magenta)),
    ]
}

/// The second column: the `.bin` files, with their smallest, largest and
/// average size when there are any.
pub open spec fn bin_column(info: LogsInfo) -> Seq<Seq<(Seq<char>, TextStyle)>> {
    let b = info.bin_files;
    let head = seq![
        seq![("Binary Files (.bin)"@, heading(InfoColor::Yellow))],
        figure("Count:    "@, decimal(b.count as nat), plain()),
        figure("Size:     "@, b.total_size_formatted@, colored(InfoColor::Magenta)),
    ];
    if b.count > 0 {
        head + (match b.min_size_formatted {
            Some(m) => seq![figure("Min:      "@, m@, colored(InfoColor::Blue))],
            None => Seq::empty(),
        }) + (match b.max_size_formatted {
            Some(m) => seq![figure("Max:      "@, m@, colored(InfoColor::Red))],
            None => Seq::empty(),
        }) + seq![figure("Avg:      "@, b.avg_size_formatted@, colored(InfoColor::Cyan))]
    } else {
        head
    }
}

/// Two lines per file: its name after a bullet, then its size.
pub open spec fn file_lines(files: Seq<FileInfo>) -> Seq<Seq<(Seq<char>, TextStyle)>>
    decreases files.len(),
{
    if files.len() == 0 {
        Seq::empty()
    } else {
        let f = files.last();
        file_lines(files.drop_last()) + seq![
            seq![("• "@, colored(InfoColor::DarkGray)), (f.name@, colored(InfoColor::White))],
            seq![("  "@, plain()), (f.size_formatted@, colored(InfoColor::Cyan))],
        ]
    }
}

/// The third column: the `.log` files, then each of them.
pub open spec fn log_column(info: LogsInfo) -> Seq<Seq<(Seq<char>, TextStyle)>> {
    let l = info.log_files;
    let head = seq![
        seq![("Log Files (.log)"@, heading(InfoColor::Yellow))],
        figure("Count:    "@, decimal(l.count as nat), plain()),
        figure("Size:     "@, l.total_size_formatted@, colored(InfoColor::Magenta)),
    ];
    if l.files@.len() > 0 {
        head + seq![seq![(""@, plain())]] + file_lines(l.files@)
    } else {
        head
    }
}

fn span(text: String, style: TextStyle) -> (r: InfoSpan)
    ensures
        r.0 == text,
        r.1 == style,
{
    (text, style)
}

fn one(text: String, style: TextStyle) -> (r: Vec<InfoSpan>)
    ensures
        line_view(r) == seq![(text@, style)],
{
    let mut l: Vec<InfoSpan> = Vec::new();
    l.push(span(text, style));
    assert(line_view(l) =~= seq![(text@, style)]);
    l
}

fn two(a: String, sa: TextStyle, b: String, sb: TextStyle) -> (r: Vec<InfoSpan>)
    ensures
        line_view(r) == seq![(a@, sa), (b@, sb)],
{
    let mut l: Vec<InfoSpan> = Vec::new();
    l.push(span(a, sa));
    l.push(span(b, sb));
    assert(line_view(l) =~= seq![(a@, sa), (b@, sb)]);
    l
}

fn number(n: usize) -> (r: String)
    ensures
        r@ == decimal(n as nat),
{
    let mut s = String::new();
    push_decimal(&mut s, n as u64);
    s
}

fn push_line(col: &mut Vec<Vec<InfoSpan>>, line: Vec<InfoSpan>)
    ensures
        column_view(*final(col)) == column_view(*old(col)).push(line_view(line)),
{
    col.push(line);
    assert(column_view(*col) =~= column_view(*old(col)).push(line_view(line)));
}

/// The directory summary panel.
pub struct SystemInfoWidget<'a> {
    pub id: u8,
    pub title: &'static str,
    pub area: Option<Rect>,
    pub focused: bool,
    pub logs_info: &'a LogsInfo,
}

impl<'a> SystemInfoWidget<'a> {
    /// The panel for the summary.
    pub fn new(logs_info: &'a LogsInfo) -> (r: Self)
        ensures
            r.id == 4,
            r.title@ == "~ System Info ~"@,
            r.area is None,
            !r.focused,
            r.logs_info == logs_info,
    {
        SystemInfoWidget { id: 4, title: "~ System Info ~", area: None, focused: false, logs_info }
    }

    fn overall(&self) -> (r: Vec<Vec<InfoSpan>>)
        ensures
            column_view(r) == overall_column(*self.logs_info),
    {
        let info = self.logs_info;
        let green = TextStyle { color: Some(InfoColor::Green), bold: false };
        let mut col: Vec<Vec<InfoSpan>> = Vec::new();
        push_line(&mut col, one(String::from_str("Directory: "), TextStyle { color: Some(InfoColor::Cyan), bold: true }));
        push_line(&mut col, one(info.directory_path.clone(), TextStyle { color: None, bold: false }));
        push_line(&mut col, one(String::from_str(""), TextStyle { color: None, bold: false }));
        push_line(
            &mut col,
            one(String::from_str("Overall Statistics"), TextStyle { color: Some(InfoColor::Yellow), bold: true }),
        );
        push_line(
            &mut col,
            two(String::from_str("Files:  "), green, number(info.total_files), TextStyle { color: None, bold: false }),
        );
        push_line(
            &mut col,
            two(
                String::from_str("Size:   "),
                green,
                info.total_size_formatted.clone(),
                TextStyle { color: Some(InfoColor::Magenta), bold: false },
            ),
        );
        assert(column_view(col) =~= overall_column(*info));
        col
    }

    fn bins(&self) -> (r: Vec<Vec<InfoSpan>>)
        ensures
            column_view(r) == bin_column(*self.logs_info),
    {
        let b = &self.logs_info.bin_files;
        let green = TextStyle { color: Some(InfoColor::Green), bold: false };
        let mut col: Vec<Vec<InfoSpan>> = Vec::new();
        push_line(
            &mut col,
            one(String::from_str("Binary Files (.bin)"), TextStyle { color: Some(InfoColor::Yellow), bold: true }),
        );
        push_line(&mut col, two(String::from_str("Count:    "), green, number(b.count), TextStyle { color: None, bold: false }));
        push_line(
            &mut col,
            two(
                String::from_str("Size:     "),
                green,
                b.total_size_formatted.clone(),
                TextStyle { color: Some(InfoColor::Magenta), bold: false },
            ),
        );
        if b.count > 0 {
            if let Some(m) = &b.min_size_formatted {
                push_line(
                    &mut col,
                    two(String::from_str("Min:      "), green, m.clone(), TextStyle { color: Some(InfoColor::Blue), bold: false }),
                );
            }
            if let Some(m) = &b.max_size_formatted {
                push_line(
                    &mut col,
                    two(String::from_str("Max:      "), green, m.clone(), TextStyle { color: Some(InfoColor::Red), bold: false }),
                );
            }
            push_line(
                &mut col,
                two(
                    String::from_str("Avg:      "),
                    green,
                    b.avg_size_formatted.clone(),
                    TextStyle { color: Some(InfoColor::Cyan), bold: false },
                ),
            );
            assert(column_view(col) =~= bin_column(*self.logs_info));
        } else {
            assert(column_view(col) =~= bin_column(*self.logs_info));
        }
        col
    }

    fn logs_column(&self) -> (r: Vec<Vec<InfoSpan>>)
        ensures
            column_view(r) == log_column(*self.logs_info),
    {
        let l = &self.logs_info.log_files;
        let green = TextStyle { color: Some(InfoColor::Green), bold: false };
        let mut col: Vec<Vec<InfoSpan>> = Vec::new();
        push_line(
            &mut col,
            one(String::from_str("Log Files (.log)"), TextStyle { color: Some(InfoColor::Yellow), bold: true }),
        );
        push_line(&mut col, two(String::from_str("Count:    "), green, number(l.count), TextStyle { color: None, bold: false }));
        push_line(
            &mut col,
            two(
                String::from_str("Size:     "),
                green,
                l.total_size_formatted.clone(),
                TextStyle { color: Some(InfoColor::Magenta), bold: false },
            ),
        );
        if l.files.len() > 0 {
            push_line(&mut col, one(String::from_str(""), TextStyle { color: None, bold: false }));
            let ghost start = column_view(col);
            for i in 0..l.files.len()
                invariant
                    column_view(col) == start + file_lines(l.files@.take(i as int)),
            {
                let f = &l.files[i];
                push_line(
                    &mut col,
                    two(
                        String::from_str("• "),
                        TextStyle { color: Some(InfoColor::DarkGray), bold: false },
                        f.name.clone(),
                        TextStyle { color: Some(InfoColor::White), bold: false },
                    ),
                );
                push_line(
                    &mut col,
                    two(
                        String::from_str("  "),
                        TextStyle { color: None, bold: false },
                        f.size_formatted.clone(),
                        TextStyle { color: Some(InfoColor::Cyan), bold: false },
                    ),
                );
                assert(l.files@.take(i + 1).drop_last() =~= l.files@.take(i as int));
                assert(column_view(col) =~= start + file_lines(l.files@.take(i + 1)));
            }
            assert(l.files@.take(l.files.len() as int) =~= l.files@);
        }
        assert(column_view(col) =~= log_column(*self.logs_info));
        col
    }

    /// The three columns of the panel (see `overall_column`, `bin_column`
    /// and `log_column`).
    pub fn create_column_sections(&self) -> (r: (Vec<Vec<InfoSpan>>, Vec<Vec<InfoSpan>>, Vec<Vec<InfoSpan>>))
        ensures
            column_view(r.0) == overall_column(*self.logs_info),
            column_view(r.1) == bin_column(*self.logs_info),
            column_view(r.2) == log_column(*self.logs_info),
    {
        (self.overall(), self.bins(), self.logs_column())
    }

    /// The panel has no keys of its own.
    pub fn on_key(&mut self, key: KeyCode)
        ensures
            *final(self) == *old(self),
    {
    }
}

} // verus!
