//! The slide content model (blocks and inline spans) and its construction
//! from a markdown event stream.

use vstd::prelude::*;

use crate::text::{chars_of, string_of, trim_end, trim_end_chars};
use pulldown_cmark::{CodeBlockKind, Event, Parser, Tag, TagEnd};

verus! {

/// Inline text fragment with style. Used inside paragraphs and list items to
/// mix plain text with bold, italic, and inline-code runs.
#[derive(Debug, Clone)]
pub enum Span {
    Plain(String),
    Bold(String),
    Italic(String),
    Code(String),
}

/// The value of a [`Span`].
pub ghost enum SpanV {
    Plain(Seq<char>),
    Bold(Seq<char>),
    Italic(Seq<char>),
    Code(Seq<char>),
}

impl View for Span {
    type V = SpanV;

    open spec fn view(&self) -> SpanV {
        match self {
            Span::Plain(t) => SpanV::Plain(t@),
            Span::Bold(t) => SpanV::Bold(t@),
            Span::Italic(t) => SpanV::Italic(t@),
            Span::Code(t) => SpanV::Code(t@),
        }
    }
}

/// The values of a run of spans.
pub open spec fn spans_v(s: Seq<Span>) -> Seq<SpanV> {
    s.map_values(|x: Span| x@)
}

/// One item in a bullet or numbered list, holding inline spans.
#[derive(Debug, Clone)]
pub struct ListItem {
    pub spans: Vec<Span>,
}

impl View for ListItem {
    type V = Seq<SpanV>;

    open spec fn view(&self) -> Seq<SpanV> {
        spans_v(self.spans@)
    }
}

/// The values of a run of list items.
pub open spec fn items_v(s: Seq<ListItem>) -> Seq<Seq<SpanV>> {
    s.map_values(|x: ListItem| x@)
}

/// One block of slide content.
#[derive(Debug, Clone)]
pub enum Block {
    Heading { level: u8, text: String },
    Paragraph { spans: Vec<Span> },
    BulletList { items: Vec<ListItem> },
    NumberedList { items: Vec<ListItem> },
    Code { lang: Option<String>, code: String },
    HorizontalRule,
    Image { path: String, alt: String },
}

/// The value of a [`Block`].
pub ghost enum BlockV {
    Heading { level: u8, text: Seq<char> },
    Paragraph { spans: Seq<SpanV> },
    BulletList { items: Seq<Seq<SpanV>> },
    NumberedList { items: Seq<Seq<SpanV>> },
    Code { lang: Option<Seq<char>>, code: Seq<char> },
    HorizontalRule,
    Image { path: Seq<char>, alt: Seq<char> },
}

/// The value of an optional string.
pub open spec fn opt_v(o: Option<String>) -> Option<Seq<char>> {
    match o {
        Some(s) => Some(s@),
        None => None,
    }
}

impl View for Block {
    type V = BlockV;

    open spec fn view(&self) -> BlockV {
        match self {
            Block::Heading { level, text } => BlockV::Heading { level: *level, text: text@ },
            Block::Paragraph { spans } => BlockV::Paragraph { spans: spans_v(spans@) },
            Block::BulletList { items } => BlockV::BulletList { items: items_v(items@) },
            Block::NumberedList { items } => BlockV::NumberedList { items: items_v(items@) },
            Block::Code { lang, code } => BlockV::Code { lang: opt_v(*lang), code: code@ },
            Block::HorizontalRule => BlockV::HorizontalRule,
            Block::Image { path, alt } => BlockV::Image { path: path@, alt: alt@ },
        }
    }
}

/// The values of a run of blocks.
pub open spec fn blocks_v(s: Seq<Block>) -> Seq<BlockV> {
    s.map_values(|x: Block| x@)
}

/// One event of a CommonMark parse, reduced to what slides use.
///
/// `StartList` carries the first number of an ordered list (`None` for a
/// bullet list); `StartCode` carries the info string of a fenced block (possibly empty) and
/// `None` for an indented block; `Break` stands for soft and hard breaks;
/// `Other` for every event that slides ignore.
#[derive(Debug, Clone)]
pub enum MdEvent {
    StartHeading(u8),
    EndHeading,
    StartParagraph,
    EndParagraph,
    StartList(Option<u64>),
    EndList,
    StartItem,
    EndItem,
    StartCode(Option<String>),
    EndCode,
    StartEmphasis,
    EndEmphasis,
    StartStrong,
    EndStrong,
    Text(String),
    Code(String),
    Break,
    StartImage(String),
    EndImage,
    Rule,
    Other,
}

/// The value of an [`MdEvent`].
pub ghost enum MdEventV {
    StartHeading(u8),
    EndHeading,
    StartParagraph,
    EndParagraph,
    StartList(Option<u64>),
    EndList,
    StartItem,
    EndItem,
    StartCode(Option<Seq<char>>),
    EndCode,
    StartEmphasis,
    EndEmphasis,
    StartStrong,
    EndStrong,
    Text(Seq<char>),
    Code(Seq<char>),
    Break,
    StartImage(Seq<char>),
    EndImage,
    Rule,
    Other,
}

impl View for MdEvent {
    type V = MdEventV;

    open spec fn view(&self) -> MdEventV {
        match self {
            MdEvent::StartHeading(l) => MdEventV::StartHeading(*l),
            MdEvent::EndHeading => MdEventV::EndHeading,
            MdEvent::StartParagraph => MdEventV::StartParagraph,
            MdEvent::EndParagraph => MdEventV::EndParagraph,
            MdEvent::StartList(o) => MdEventV::StartList(*o),
            MdEvent::EndList => MdEventV::EndList,
            MdEvent::StartItem => MdEventV::StartItem,
            MdEvent::EndItem => MdEventV::EndItem,
            MdEvent::StartCode(l) => MdEventV::StartCode(opt_v(*l)),
            MdEvent::EndCode => MdEventV::EndCode,
            MdEvent::StartEmphasis => MdEventV::StartEmphasis,
            MdEvent::EndEmphasis => MdEventV::EndEmphasis,
            MdEvent::StartStrong => MdEventV::StartStrong,
            MdEvent::EndStrong => MdEventV::EndStrong,
            MdEvent::Text(t) => MdEventV::Text(t@),
            MdEvent::Code(t) => MdEventV::Code(t@),
            MdEvent::Break => MdEventV::Break,
            MdEvent::StartImage(d) => MdEventV::StartImage(d@),
            MdEvent::EndImage => MdEventV::EndImage,
            MdEvent::Rule => MdEventV::Rule,
            MdEvent::Other => MdEventV::Other,
        }
    }
}

/// The values of a run of events.
pub open spec fn events_v(s: Seq<MdEvent>) -> Seq<MdEventV> {
    s.map_values(|x: MdEvent| x@)
}

/// What the block builder remembers between events.
pub ghost struct BuildState {
    pub in_heading: bool,
    pub heading_level: u8,
    pub in_list: bool,
    pub ordered: bool,
    pub in_code: bool,
    pub in_bold: bool,
    pub in_italic: bool,
    pub code_lang: Option<Seq<char>>,
    pub text_buf: Seq<char>,
    pub spans: Seq<SpanV>,
    pub list_items: Seq<Seq<SpanV>>,
    pub list_stack: Seq<(bool, Seq<Seq<SpanV>>)>,
    pub in_image: bool,
    pub image_dest: Option<Seq<char>>,
}

/// The builder's state before the first event.
pub open spec fn initial_build_state() -> BuildState {
    BuildState {
        in_heading: false,
        heading_level: 0,
        in_list: false,
        ordered: false,
        in_code: false,
        in_bold: false,
        in_italic: false,
        code_lang: None,
        text_buf: seq![],
        spans: seq![],
        list_items: seq![],
        list_stack: seq![],
        in_image: false,
        image_dest: None,
    }
}

/// How one event changes the builder's state, and the blocks it completes.
///
/// Headings, code blocks and image alt texts collect their text; paragraph
/// and list-item text becomes spans styled by the enclosing emphasis; a list
/// is emitted when it closes and nested lists are flattened (inner lists are
/// emitted on their own and the outer list resumes).
pub open spec fn build_step(st: BuildState, ev: MdEventV) -> (BuildState, Seq<BlockV>) {
    match ev {
        MdEventV::StartHeading(l) => (
            BuildState { in_heading: true, heading_level: l, text_buf: seq![], ..st },
            seq![],
        ),
        MdEventV::EndHeading => (
            BuildState { in_heading: false, text_buf: seq![], ..st },
            seq![BlockV::Heading { level: st.heading_level, text: st.text_buf }],
        ),
        MdEventV::StartParagraph => if st.in_list {
            (st, seq![])
        } else {
            (BuildState { spans: seq![], ..st }, seq![])
        },
        MdEventV::EndParagraph => if !st.in_list && st.spans.len() > 0 {
            (BuildState { spans: seq![], ..st }, seq![BlockV::Paragraph { spans: st.spans }])
        } else {
            (st, seq![])
        },
        MdEventV::StartList(o) => (
            BuildState {
                list_stack: st.list_stack.push((st.ordered, st.list_items)),
                in_list: true,
                ordered: o is Some,
                list_items: seq![],
                ..st
            },
            seq![],
        ),
        MdEventV::EndList => {
            let emitted = if st.ordered {
                BlockV::NumberedList { items: st.list_items }
            } else {
                BlockV::BulletList { items: st.list_items }
            };
            if st.list_stack.len() > 0 {
                let parent = st.list_stack.last();
                (
                    BuildState {
                        ordered: parent.0,
                        list_items: parent.1,
                        in_list: true,
                        list_stack: st.list_stack.drop_last(),
                        ..st
                    },
                    seq![emitted],
                )
            } else {
                (BuildState { list_items: seq![], in_list: false, ..st }, seq![emitted])
            }
        },
        MdEventV::StartItem => (BuildState { spans: seq![], ..st }, seq![]),
        MdEventV::EndItem => (
            BuildState { list_items: st.list_items.push(st.spans), spans: seq![], ..st },
            seq![],
        ),
        MdEventV::StartCode(info) => {
            let lang = match info {
                Some(l) => if l.len() == 0 {
                    None
                } else {
                    Some(l)
                },
                None => None,
            };
            (BuildState { in_code: true, code_lang: lang, text_buf: seq![], ..st }, seq![])
        },
        MdEventV::EndCode => (
            BuildState { in_code: false, code_lang: None, text_buf: seq![], ..st },
            seq![BlockV::Code { lang: st.code_lang, code: trim_end(st.text_buf) }],
        ),
        MdEventV::StartEmphasis => (BuildState { in_italic: true, ..st }, seq![]),
        MdEventV::EndEmphasis => (BuildState { in_italic: false, ..st }, seq![]),
        MdEventV::StartStrong => (BuildState { in_bold: true, ..st }, seq![]),
        MdEventV::EndStrong => (BuildState { in_bold: false, ..st }, seq![]),
        MdEventV::Text(t) => if st.in_image || st.in_code || st.in_heading {
            (BuildState { text_buf: st.text_buf + t, ..st }, seq![])
        } else if st.in_bold {
            (BuildState { spans: st.spans.push(SpanV::Bold(t)), ..st }, seq![])
        } else if st.in_italic {
            (BuildState { spans: st.spans.push(SpanV::Italic(t)), ..st }, seq![])
        } else {
            (BuildState { spans: st.spans.push(SpanV::Plain(t)), ..st }, seq![])
        },
        MdEventV::Code(t) => (BuildState { spans: st.spans.push(SpanV::Code(t)), ..st }, seq![]),
        MdEventV::Break => if st.in_code {
            (BuildState { text_buf: st.text_buf.push('\n'), ..st }, seq![])
        } else if st.in_heading {
            (BuildState { text_buf: st.text_buf.push(' '), ..st }, seq![])
        } else {
            (BuildState { spans: st.spans.push(SpanV::Plain(seq![' '])), ..st }, seq![])
        },
        MdEventV::StartImage(d) => (
            BuildState { in_image: true, image_dest: Some(d), text_buf: seq![], ..st },
            seq![],
        ),
        MdEventV::EndImage => match st.image_dest {
            Some(d) => (
                BuildState { in_image: false, image_dest: None, text_buf: seq![], ..st },
                seq![BlockV::Image { path: d, alt: st.text_buf }],
            ),
            None => (BuildState { in_image: false, ..st }, seq![]),
        },
        MdEventV::Rule => (st, seq![BlockV::HorizontalRule]),
        MdEventV::Other => (st, seq![]),
    }
}

/// The state after a run of events and every block they completed, in order.
pub open spec fn build_run(events: Seq<MdEventV>) -> (BuildState, Seq<BlockV>)
    decreases events.len(),
{
    if events.len() == 0 {
        (initial_build_state(), seq![])
    } else {
        let prev = build_run(events.drop_last());
        let next = build_step(prev.0, events.last());
        (next.0, prev.1 + next.1)
    }
}

/// The blocks that a run of events describes.
pub open spec fn blocks_of_events(events: Seq<MdEventV>) -> Seq<BlockV> {
    build_run(events).1
}

} // verus!

verus! {

/// The block builder's executable state; see [`BuildState`].
struct Builder {
    in_heading: bool,
    heading_level: u8,
    in_list: bool,
    ordered: bool,
    in_code: bool,
    in_bold: bool,
    in_italic: bool,
    code_lang: Option<Vec<char>>,
    text_buf: Vec<char>,
    spans: Vec<Span>,
    list_items: Vec<ListItem>,
    list_stack: Vec<(bool, Vec<ListItem>)>,
    in_image: bool,
    image_dest: Option<Vec<char>>,
}

spec fn opt_chars_v(o: Option<Vec<char>>) -> Option<Seq<char>> {
    match o {
        Some(v) => Some(v@),
        None => None,
    }
}

spec fn stack_v(s: Seq<(bool, Vec<ListItem>)>) -> Seq<(bool, Seq<Seq<SpanV>>)> {
    s.map_values(|p: (bool, Vec<ListItem>)| (p.0, items_v(p.1@)))
}

impl View for Builder {
    type V = BuildState;

    closed spec fn view(&self) -> BuildState {
        BuildState {
            in_heading: self.in_heading,
            heading_level: self.heading_level,
            in_list: self.in_list,
            ordered: self.ordered,
            in_code: self.in_code,
            in_bold: self.in_bold,
            in_italic: self.in_italic,
            code_lang: opt_chars_v(self.code_lang),
            text_buf: self.text_buf@,
            spans: spans_v(self.spans@),
            list_items: items_v(self.list_items@),
            list_stack: stack_v(self.list_stack@),
            in_image: self.in_image,
            image_dest: opt_chars_v(self.image_dest),
        }
    }
}

fn emit(out: &mut Vec<Block>, b: Block)
    ensures
        blocks_v(final(out)@) == blocks_v(old(out)@) + seq![b@],
{
    out.push(b);
    assert(blocks_v(out@) =~= blocks_v(old(out)@) + seq![b@]);
}

fn push_span(spans: &mut Vec<Span>, s: Span)
    ensures
        spans_v(final(spans)@) == spans_v(old(spans)@).push(s@),
{
    spans.push(s);
    assert(spans_v(spans@) =~= spans_v(old(spans)@).push(s@));
}

impl Builder {
    fn new() -> (r: Builder)
        ensures
            r@ == initial_build_state(),
    {
        let r = Builder {
            in_heading: false,
            heading_level: 0,
            in_list: false,
            ordered: false,
            in_code: false,
            in_bold: false,
            in_italic: false,
            code_lang: None,
            text_buf: Vec::new(),
            spans: Vec::new(),
            list_items: Vec::new(),
            list_stack: Vec::new(),
            in_image: false,
            image_dest: None,
        };
        assert(spans_v(r.spans@) =~= seq![]);
        assert(items_v(r.list_items@) =~= seq![]);
        assert(stack_v(r.list_stack@) =~= seq![]);
        assert(r@ =~= initial_build_state());
        r
    }

    fn take_spans(&mut self) -> (r: Vec<Span>)
        ensures
            r@ == old(self).spans@,
            final(self)@ == (BuildState { spans: seq![], ..old(self)@ }),
    {
        let mut r = Vec::new();
        std::mem::swap(&mut r, &mut self.spans);
        assert(spans_v(self.spans@) =~= seq![]);
        r
    }

    fn take_text(&mut self) -> (r: String)
        ensures
            r@ == old(self).text_buf@,
            final(self)@ == (BuildState { text_buf: seq![], ..old(self)@ }),
    {
        let r = string_of(self.text_buf.as_slice());
        self.text_buf = Vec::new();
        r
    }

    fn step(&mut self, ev: &MdEvent, out: &mut Vec<Block>)
        ensures
            final(self)@ == build_step(old(self)@, ev@).0,
            blocks_v(final(out)@) == blocks_v(old(out)@) + build_step(old(self)@, ev@).1,
    {
        match ev {
            MdEvent::StartHeading(_) | MdEvent::EndHeading | MdEvent::StartParagraph
            | MdEvent::EndParagraph | MdEvent::Rule | MdEvent::Other => self.step_simple(ev, out),
            MdEvent::StartList(_) | MdEvent::EndList | MdEvent::StartItem | MdEvent::EndItem => {
                self.step_list(ev, out)
            },
            MdEvent::StartCode(_) | MdEvent::EndCode | MdEvent::StartImage(_)
            | MdEvent::EndImage => self.step_code_image(ev, out),
            _ => self.step_inline(ev, out),
        }
    }

    fn step_simple(&mut self, ev: &MdEvent, out: &mut Vec<Block>)
        requires
            ev is StartHeading || ev is EndHeading || ev is StartParagraph || ev is EndParagraph
                || ev is Rule || ev is Other,
        ensures
            final(self)@ == build_step(old(self)@, ev@).0,
            blocks_v(final(out)@) == blocks_v(old(out)@) + build_step(old(self)@, ev@).1,
    {
        let ghost st = self@;
        match ev {
            MdEvent::StartHeading(l) => {
                self.in_heading = true;
                self.heading_level = *l;
                self.text_buf = Vec::new();
                assert(blocks_v(out@) =~= blocks_v(old(out)@) + seq![]);
            },
            MdEvent::EndHeading => {
                self.in_heading = false;
                let text = self.take_text();
                emit(out, Block::Heading { level: self.heading_level, text });
            },
            MdEvent::StartParagraph => {
                if !self.in_list {
                    let _ = self.take_spans();
                }
                assert(blocks_v(out@) =~= blocks_v(old(out)@) + seq![]);
            },
            MdEvent::EndParagraph => {
                if !self.in_list && self.spans.len() > 0 {
                    let spans = self.take_spans();
                    emit(out, Block::Paragraph { spans });
                } else {
                    assert(blocks_v(out@) =~= blocks_v(old(out)@) + seq![]);
                }
            },
            MdEvent::Rule => {
                emit(out, Block::HorizontalRule);
            },
            _ => {
                assert(blocks_v(out@) =~= blocks_v(old(out)@) + seq![]);
            },
        }
        assert(self@ =~= build_step(st, ev@).0);
    }

    fn step_list(&mut self, ev: &MdEvent, out: &mut Vec<Block>)
        requires
            ev is StartList || ev is EndList || ev is StartItem || ev is EndItem,
        ensures
            final(self)@ == build_step(old(self)@, ev@).0,
            blocks_v(final(out)@) == blocks_v(old(out)@) + build_step(old(self)@, ev@).1,
    {
        let ghost st = self@;
        match ev {
            MdEvent::StartList(o) => {
                let mut items = Vec::new();
                std::mem::swap(&mut items, &mut self.list_items);
                self.list_stack.push((self.ordered, items));
                self.in_list = true;
                self.ordered = o.is_some();
                assert(items_v(self.list_items@) =~= seq![]);
                assert(stack_v(self.list_stack@) =~= st.list_stack.push((st.ordered, st.list_items)));
                assert(blocks_v(out@) =~= blocks_v(old(out)@) + seq![]);
            },
            MdEvent::EndList => {
                let mut items = Vec::new();
                std::mem::swap(&mut items, &mut self.list_items);
                assert(items_v(self.list_items@) =~= seq![]);
                if self.ordered {
                    emit(out, Block::NumberedList { items });
                } else {
                    emit(out, Block::BulletList { items });
                }
                match self.list_stack.pop() {
                    Some(parent) => {
                        let (parent_ordered, parent_items) = parent;
                        self.ordered = parent_ordered;
                        self.list_items = parent_items;
                        self.in_list = true;
                        assert(stack_v(self.list_stack@) =~= st.list_stack.drop_last());
                    },
                    None => {
                        self.in_list = false;
                    },
                }
            },
            MdEvent::StartItem => {
                let _ = self.take_spans();
                assert(blocks_v(out@) =~= blocks_v(old(out)@) + seq![]);
            },
            _ => {
                let spans = self.take_spans();
                let item = ListItem { spans };
                self.list_items.push(item);
                assert(items_v(self.list_items@) =~= st.list_items.push(st.spans));
                assert(blocks_v(out@) =~= blocks_v(old(out)@) + seq![]);
            },
        }
        assert(self@ =~= build_step(st, ev@).0);
    }

    fn step_code_image(&mut self, ev: &MdEvent, out: &mut Vec<Block>)
        requires
            ev is StartCode || ev is EndCode || ev is StartImage || ev is EndImage,
        ensures
            final(self)@ == build_step(old(self)@, ev@).0,
            blocks_v(final(out)@) == blocks_v(old(out)@) + build_step(old(self)@, ev@).1,
    {
        let ghost st = self@;
        match ev {
            MdEvent::StartCode(info) => {
                self.in_code = true;
                self.code_lang = match info {
                    Some(l) => {
                        let cs = chars_of(l.as_str());
                        if cs.len() == 0 {
                            None
                        } else {
                            Some(cs)
                        }
                    },
                    None => None,
                };
                self.text_buf = Vec::new();
                assert(blocks_v(out@) =~= blocks_v(old(out)@) + seq![]);
            },
            MdEvent::EndCode => {
                self.in_code = false;
                let code_chars = trim_end_chars(self.text_buf.as_slice());
                let code = string_of(code_chars.as_slice());
                let lang = match self.code_lang.take() {
                    Some(l) => Some(string_of(l.as_slice())),
                    None => None,
                };
                self.text_buf = Vec::new();
                emit(out, Block::Code { lang, code });
            },
            MdEvent::StartImage(d) => {
                self.in_image = true;
                self.image_dest = Some(chars_of(d.as_str()));
                self.text_buf = Vec::new();
                assert(blocks_v(out@) =~= blocks_v(old(out)@) + seq![]);
            },
            _ => {
                self.in_image = false;
                match self.image_dest.take() {
                    Some(d) => {
                        let alt = self.take_text();
                        let path = string_of(d.as_slice());
                        emit(out, Block::Image { path, alt });
                    },
                    None => {
                        assert(blocks_v(out@) =~= blocks_v(old(out)@) + seq![]);
                    },
                }
            },
        }
        assert(self@ =~= build_step(st, ev@).0);
    }

    fn step_inline(&mut self, ev: &MdEvent, out: &mut Vec<Block>)
        requires
            ev is StartEmphasis || ev is EndEmphasis || ev is StartStrong || ev is EndStrong
                || ev is Text || ev is Code || ev is Break,
        ensures
            final(self)@ == build_step(old(self)@, ev@).0,
            blocks_v(final(out)@) == blocks_v(old(out)@) + build_step(old(self)@, ev@).1,
    {
        let ghost st = self@;
        match ev {
            MdEvent::StartEmphasis => {
                self.in_italic = true;
            },
            MdEvent::EndEmphasis => {
                self.in_italic = false;
            },
            MdEvent::StartStrong => {
                self.in_bold = true;
            },
            MdEvent::EndStrong => {
                self.in_bold = false;
            },
            MdEvent::Text(t) => {
                if self.in_image || self.in_code || self.in_heading {
                    let cs = chars_of(t.as_str());
                    crate::text::push_all(&mut self.text_buf, cs.as_slice());
                } else if self.in_bold {
                    push_span(&mut self.spans, Span::Bold(t.clone()));
                } else if self.in_italic {
                    push_span(&mut self.spans, Span::Italic(t.clone()));
                } else {
                    push_span(&mut self.spans, Span::Plain(t.clone()));
                }
            },
            MdEvent::Code(t) => {
                push_span(&mut self.spans, Span::Code(t.clone()));
            },
            _ => {
                if self.in_code {
                    self.text_buf.push('\n');
                } else if self.in_heading {
                    self.text_buf.push(' ');
                } else {
                    let sp = string_of(&[' ']);
                    assert(sp@ == seq![' ']);
                    push_span(&mut self.spans, Span::Plain(sp));
                }
            },
        }
        assert(blocks_v(out@) =~= blocks_v(old(out)@) + seq![]);
        assert(self@ =~= build_step(st, ev@).0);
    }
}

/// Builds the blocks that a markdown event stream describes.
pub fn blocks_from_events(events: &[MdEvent]) -> (r: Vec<Block>)
    ensures
        blocks_v(r@) == blocks_of_events(events_v(events@)),
{
    let mut b = Builder::new();
    let mut out: Vec<Block> = Vec::new();
    let mut i: usize = 0;
    assert(events_v(events@).take(0) =~= seq![]);
    assert(blocks_v(out@) =~= seq![]);
    while i < events.len()
        invariant
            i <= events@.len(),
            (b@, blocks_v(out@)) == build_run(events_v(events@).take(i as int)),
        decreases events@.len() - i,
    {
        b.step(&events[i], &mut out);
        assert(events_v(events@).take(i + 1).drop_last() =~= events_v(events@).take(i as int));
        i = i + 1;
    }
    assert(events_v(events@).take(i as int) =~= events_v(events@));
    out
}

} // verus!

verus! {

#[verifier::external_type_specification]
#[verifier::external_body]
pub struct ExCmarkEvent<'a>(pulldown_cmark::Event<'a>);

#[verifier::external_type_specification]
#[verifier::external_body]
pub struct ExCmarkTag<'a>(pulldown_cmark::Tag<'a>);

#[verifier::external_type_specification]
#[verifier::external_body]
pub struct ExCmarkTagEnd(pulldown_cmark::TagEnd);

/// What `pulldown_cmark::Parser::new` yields for `text`, each event reduced
/// to an [`MdEvent`].
pub uninterp spec fn cmark_events(text: Seq<char>) -> Seq<MdEventV>;

/// Runs `pulldown_cmark::Parser::new` (default options) over `text` and
/// converts each event it yields, one for one. The contract names the result,
/// which depends on `text` alone.
#[verifier::external_body]
fn cmark_parse(text: &str) -> (r: Vec<MdEvent>)
    ensures
        events_v(r@) == cmark_events(text@),
{
    Parser::new(text).map(md_event).collect()
}

/// Converts one `pulldown_cmark::Event`, variant by variant.
#[verifier::external_body]
fn md_event(e: Event<'_>) -> MdEvent {
    match e {
        Event::Start(t) => md_start(t),
        Event::End(t) => md_end(t),
        Event::Text(s) => MdEvent::Text(s.to_string()),
        Event::Code(s) => MdEvent::Code(s.to_string()),
        Event::SoftBreak | Event::HardBreak => MdEvent::Break,
        Event::Rule => MdEvent::Rule,
        _ => MdEvent::Other,
    }
}

/// Converts one `pulldown_cmark::Tag` that opens an element, variant by variant.
#[verifier::external_body]
fn md_start(t: Tag<'_>) -> MdEvent {
    match t {
        Tag::Heading { level, .. } => MdEvent::StartHeading(level as u8),
        Tag::Paragraph => MdEvent::StartParagraph,
        Tag::List(first) => MdEvent::StartList(first),
        Tag::Item => MdEvent::StartItem,
        Tag::CodeBlock(CodeBlockKind::Fenced(info)) => MdEvent::StartCode(Some(info.to_string())),
        Tag::CodeBlock(CodeBlockKind::Indented) => MdEvent::StartCode(None),
        Tag::Emphasis => MdEvent::StartEmphasis,
        Tag::Strong => MdEvent::StartStrong,
        Tag::Image { dest_url, .. } => MdEvent::StartImage(dest_url.to_string()),
        _ => MdEvent::Other,
    }
}

/// Converts one `pulldown_cmark::TagEnd`, variant by variant.
#[verifier::external_body]
fn md_end(t: TagEnd) -> MdEvent {
    match t {
        TagEnd::Heading(_) => MdEvent::EndHeading,
        TagEnd::Paragraph => MdEvent::EndParagraph,
        TagEnd::List(_) => MdEvent::EndList,
        TagEnd::Item => MdEvent::EndItem,
        TagEnd::CodeBlock => MdEvent::EndCode,
        TagEnd::Emphasis => MdEvent::EndEmphasis,
        TagEnd::Strong => MdEvent::EndStrong,
        TagEnd::Image => MdEvent::EndImage,
        _ => MdEvent::Other,
    }
}

/// The blocks that the markdown `text` describes.
pub open spec fn md_blocks(text: Seq<char>) -> Seq<BlockV> {
    blocks_of_events(cmark_events(text))
}

/// Parse a markdown fragment into a flat list of blocks.
///
/// Nested lists are flattened: each list is emitted when it closes.
pub fn parse_blocks(markdown: &str) -> (r: Vec<Block>)
    ensures
        blocks_v(r@) == md_blocks(markdown@),
{
    let events = cmark_parse(markdown);
    blocks_from_events(events.as_slice())
}

} // verus!

verus! {

/// An event that carries a paragraph's own text: a text run or a line
/// break.
pub open spec fn is_line_text(e: MdEventV) -> bool {
    e is Text || e is Break
}

/// The text that a run of text and line-break events spells, each line
/// break read as a single space.
pub open spec fn line_text(evs: Seq<MdEventV>) -> Seq<char>
    decreases evs.len(),
{
    if evs.len() == 0 {
        seq![]
    } else {
        line_text(evs.drop_last()) + match evs.last() {
            MdEventV::Text(t) => t,
            _ => seq![' '],
        }
    }
}

/// The text of a run of spans, concatenated.
pub open spec fn spans_text(ss: Seq<SpanV>) -> Seq<char>
    decreases ss.len(),
{
    if ss.len() == 0 {
        seq![]
    } else {
        spans_text(ss.drop_last()) + match ss.last() {
            SpanV::Plain(t) => t,
            SpanV::Bold(t) => t,
            SpanV::Italic(t) => t,
            SpanV::Code(t) => t,
        }
    }
}

proof fn lemma_paragraph_run(inner: Seq<MdEventV>)
    requires
        forall|i: int| 0 <= i < inner.len() ==> is_line_text(#[trigger] inner[i]),
    ensures
        ({
            let run = build_run(seq![MdEventV::StartParagraph] + inner);
            &&& run.1 == Seq::<BlockV>::empty()
            &&& run.0 == BuildState { spans: run.0.spans, ..initial_build_state() }
            &&& run.0.spans.len() == inner.len()
            &&& spans_text(run.0.spans) == line_text(inner)
            &&& forall|j: int| 0 <= j < run.0.spans.len() ==> #[trigger] run.0.spans[j] is Plain
        }),
    decreases inner.len(),
{
    let evs = seq![MdEventV::StartParagraph] + inner;
    if inner.len() == 0 {
        assert(evs.drop_last() =~= Seq::<MdEventV>::empty());
        assert(evs.last() == MdEventV::StartParagraph);
        let e0 = Seq::<MdEventV>::empty();
        assert(build_run(e0) == (initial_build_state(), Seq::<BlockV>::empty()));
        assert(build_run(evs.drop_last()) == build_run(e0));
        assert(build_run(evs).1 =~= Seq::<BlockV>::empty());
    } else {
        let prev_inner = inner.drop_last();
        assert forall|i: int| 0 <= i < prev_inner.len() implies is_line_text(
            #[trigger] prev_inner[i],
        ) by {
            assert(prev_inner[i] == inner[i]);
        }
        lemma_paragraph_run(prev_inner);
        assert(evs.drop_last() =~= seq![MdEventV::StartParagraph] + prev_inner);
        assert(evs.last() == inner.last());
        assert(is_line_text(inner[inner.len() - 1]));
        let prev = build_run(seq![MdEventV::StartParagraph] + prev_inner);
        let run = build_run(evs);
        match inner.last() {
            MdEventV::Text(t) => {
                assert(run.0.spans == prev.0.spans.push(SpanV::Plain(t)));
            },
            _ => {
                assert(inner.last() is Break);
                assert(run.0.spans == prev.0.spans.push(SpanV::Plain(seq![' '])));
            },
        }
        assert(run.0.spans.drop_last() =~= prev.0.spans);
        assert(inner.drop_last() == prev_inner);
        assert(run.1 =~= Seq::<BlockV>::empty());
        assert forall|j: int| 0 <= j < run.0.spans.len() implies #[trigger] run.0.spans[j] is Plain by {
            if j < prev.0.spans.len() {
                assert(run.0.spans[j] == prev.0.spans[j]);
            }
        }
    }
}

/// A paragraph's text survives its line breaks: a paragraph made of text
/// runs and soft or hard line breaks becomes exactly one paragraph of plain
/// spans whose text, concatenated, is the source text with each line break
/// read as a single space, so words from two source lines are never joined
/// without a separator.
pub proof fn lemma_paragraph_breaks_are_spaces(inner: Seq<MdEventV>)
    requires
        inner.len() > 0,
        forall|i: int| 0 <= i < inner.len() ==> is_line_text(#[trigger] inner[i]),
    ensures
        ({
            let bs = blocks_of_events(
                seq![MdEventV::StartParagraph] + inner + seq![MdEventV::EndParagraph],
            );
            &&& bs.len() == 1
            &&& bs[0] matches BlockV::Paragraph { spans } && spans_text(spans) == line_text(inner)
                && forall|j: int| 0 <= j < spans.len() ==> #[trigger] spans[j] is Plain
        }),
{
    lemma_paragraph_run(inner);
    let evs = seq![MdEventV::StartParagraph] + inner + seq![MdEventV::EndParagraph];
    assert(evs.drop_last() =~= seq![MdEventV::StartParagraph] + inner);
    assert(evs.last() == MdEventV::EndParagraph);
    let run = build_run(seq![MdEventV::StartParagraph] + inner);
    assert(blocks_of_events(evs) =~= seq![BlockV::Paragraph { spans: run.0.spans }]);
}

} // verus!
