use vstd::prelude::*;

use crate::levels::{is_advisory, is_unrecoverable, level_to_status_level, status_of, EngineLevel, StatusLevel};
use crate::source_model::{range_at, range_in, SourceMessage, SourceRange};
use crate::token_writer::{decimal, string_token, TokenWriter};

verus! {

/* ----------------- Model ----------------- */

/// The kinds of declaration that the outline reports.
#[derive(Clone, Copy, Debug, PartialEq, Eq, Structural)]
pub enum StructureElementKind {
    Var,
    Function,
    Struct,
    Impl,
    Trait,
    Enum,
    EnumVariant,
    ExternCrate,
    Mod,
    Use,
    TypeAlias,
}

/// The tag that names a kind in the document.
pub open spec fn kind_tag(k: StructureElementKind) -> Seq<char> {
    match k {
        StructureElementKind::Var => "Var"@,
        StructureElementKind::Function => "Function"@,
        StructureElementKind::Struct => "Struct"@,
        StructureElementKind::Impl => "Impl"@,
        StructureElementKind::Trait => "Trait"@,
        StructureElementKind::Enum => "Enum"@,
        StructureElementKind::EnumVariant => "EnumVariant"@,
        StructureElementKind::ExternCrate => "ExternCrate"@,
        StructureElementKind::Mod => "Mod"@,
        StructureElementKind::Use => "Use"@,
        StructureElementKind::TypeAlias => "TypeAlias"@,
    }
}

impl StructureElementKind {
    /// Appends the kind's tag to `out`.
    pub fn writeString(&self, out: &mut TokenWriter)
        ensures
            final(out).out@ == old(out).out@ + kind_tag(*self),
    {
        match *self {
            StructureElementKind::Var => out.writeRaw("Var"),
            StructureElementKind::Function => out.writeRaw("Function"),
            StructureElementKind::Struct => out.writeRaw("Struct"),
            StructureElementKind::Impl => out.writeRaw("Impl"),
            StructureElementKind::Trait => out.writeRaw("Trait"),
            StructureElementKind::Enum => out.writeRaw("Enum"),
            StructureElementKind::EnumVariant => out.writeRaw("EnumVariant"),
            StructureElementKind::ExternCrate => out.writeRaw("ExternCrate"),
            StructureElementKind::Mod => out.writeRaw("Mod"),
            StructureElementKind::Use => out.writeRaw("Use"),
            StructureElementKind::TypeAlias => out.writeRaw("TypeAlias"),
        }
    }
}

/* ----------------- Document text ----------------- */

pub open spec fn level_text(lvl: StatusLevel) -> Seq<char> {
    match lvl {
        StatusLevel::OK => "OK"@,
        StatusLevel::WARNING => "WARNING"@,
        StatusLevel::ERROR => "ERROR"@,
    }
}

/// `{ startLine startCol endLine endCol }`
pub open spec fn range_text(sr: SourceRange) -> Seq<char> {
    "{ "@ + decimal(sr.start_pos.line as nat) + " "@ + decimal(sr.start_pos.col as nat) + " "@
        + decimal(sr.end_pos.line as nat) + " "@ + decimal(sr.end_pos.col as nat) + " }"@
}

/// A range, or `{ }` for none, then a space.
pub open spec fn opt_range_text(sr: Option<SourceRange>) -> Seq<char> {
    match sr {
        None => "{ }"@ + " "@,
        Some(r) => range_text(r) + " "@,
    }
}

pub open spec fn message_text(lvl: StatusLevel, sr: Option<SourceRange>, msg: Seq<char>) -> Seq<char> {
    "MESSAGE { "@ + level_text(lvl) + " "@ + opt_range_text(sr) + string_token(msg) + "}\n"@
}

/// The text of the messages, in the order they stand in `msgs`.
pub open spec fn messages_text(msgs: Seq<SourceMessage>) -> Seq<char>
    decreases msgs.len(),
{
    if msgs.len() == 0 {
        Seq::empty()
    } else {
        messages_text(msgs.drop_last()) + message_text(
            msgs.last().status_level,
            msgs.last().sourcerange,
            msgs.last().message@,
        )
    }
}

pub open spec fn messages_block(msgs: Seq<SourceMessage>) -> Seq<char> {
    "MESSAGES {\n"@ + messages_text(msgs) + "}"@
}

/// Writes a severity tag and a space.
pub fn outputString_Level(lvl: &StatusLevel, writer: &mut TokenWriter)
    ensures
        final(writer).out@ == old(writer).out@ + level_text(*lvl) + " "@,
{
    match *lvl {
        StatusLevel::OK => writer.writeRaw("OK"),
        StatusLevel::WARNING => writer.writeRaw("WARNING"),
        StatusLevel::ERROR => writer.writeRaw("ERROR"),
    }
    writer.writeRaw(" ");
}

/// Writes a range as four numbers in braces.
pub fn outputString_SourceRange(sr: &SourceRange, writer: &mut TokenWriter)
    ensures
        final(writer).out@ == old(writer).out@ + range_text(*sr),
{
    writer.writeRaw("{ ");
    writer.writeNumber(sr.start_pos.line);
    writer.writeRaw(" ");
    writer.writeNumber(sr.start_pos.col);
    writer.writeRaw(" ");
    writer.writeNumber(sr.end_pos.line);
    writer.writeRaw(" ");
    writer.writeNumber(sr.end_pos.col);
    writer.writeRaw(" }");
    assert(writer.out@ =~= old(writer).out@ + range_text(*sr));
}

/// Writes a range, or `{ }` where there is none, then a space.
pub fn outputString_optSourceRange(sr: &Option<SourceRange>, writer: &mut TokenWriter)
    ensures
        final(writer).out@ == old(writer).out@ + opt_range_text(*sr),
{
    match sr {
        None => writer.writeRaw("{ }"),
        Some(r) => outputString_SourceRange(r, writer),
    }
    writer.writeRaw(" ");
    assert(writer.out@ =~= old(writer).out@ + opt_range_text(*sr));
}

/// Writes one `MESSAGE { ... }` line.
pub fn output_message(writer: &mut TokenWriter, opt_sr: Option<SourceRange>, msg: &str, lvl: &StatusLevel)
    ensures
        final(writer).out@ == old(writer).out@ + message_text(*lvl, opt_sr, msg@),
{
    writer.writeRaw("MESSAGE { ");
    outputString_Level(lvl, writer);
    outputString_optSourceRange(&opt_sr, writer);
    writer.writeStringToken(msg);
    writer.writeRaw("}\n");
    assert(writer.out@ =~= old(writer).out@ + message_text(*lvl, opt_sr, msg@));
}

/// Writes the `MESSAGES { ... }` block, the messages in their order.
pub fn output_messages(writer: &mut TokenWriter, msgs: &Vec<SourceMessage>)
    ensures
        final(writer).out@ == old(writer).out@ + messages_block(msgs@),
{
    writer.writeRaw("MESSAGES {\n");
    let ghost start = writer.out@;
    let mut i: usize = 0;
    while i < msgs.len()
        invariant
            i <= msgs@.len(),
            writer.out@ == start + messages_text(msgs@.take(i as int)),
        decreases msgs@.len() - i,
    {
        let m = &msgs[i];
        output_message(writer, m.sourcerange, m.message.as_str(), &m.status_level);
        proof {
            assert(msgs@.take(i + 1).drop_last() =~= msgs@.take(i as int));
        }
        i = i + 1;
        assert(writer.out@ =~= start + messages_text(msgs@.take(i as int)));
    }
    assert(msgs@.take(i as int) =~= msgs@);
    writer.writeRaw("}");
    assert(writer.out@ =~= old(writer).out@ + messages_block(msgs@));
}

/* ----------------- Diagnostics ----------------- */

/// The range that an optional span of character indexes resolves to.
pub open spec fn opt_range_at(text: Seq<char>, cmsp: Option<(usize, usize)>) -> Option<SourceRange> {
    match cmsp {
        None => None,
        Some(sp) => Some(range_at(text, sp.0 as int, sp.1 as int)),
    }
}

pub open spec fn span_in(text: Seq<char>, cmsp: Option<(usize, usize)>) -> bool {
    match cmsp {
        None => true,
        Some(sp) => sp.0 <= sp.1 <= text.len(),
    }
}

/// The message that a diagnostic is recorded as.
pub open spec fn recorded(m: SourceMessage, lvl: StatusLevel, sr: Option<SourceRange>, msg: Seq<char>) -> bool {
    m.status_level == lvl && m.sourcerange == sr && m.message@ == msg
}

/// Collects the diagnostics of one parse, in the order they arrive, with
/// their spans resolved against the buffer being parsed.
pub struct MessagesHandler {
    pub source: Vec<char>,
    pub messages: Vec<SourceMessage>,
}

impl MessagesHandler {
    /// The buffer fits the index type, and every recorded range lies in it.
    pub open spec fn wf(&self) -> bool {
        &&& self.source@.len() < usize::MAX
        &&& forall|i: int|
            0 <= i < self.messages@.len() ==> match #[trigger] self.messages@[i].sourcerange {
                None => true,
                Some(r) => range_in(self.source@, r),
            }
    }

    /// A collector for diagnostics on `source`, with none recorded yet.
    pub fn new(source: Vec<char>) -> (r: MessagesHandler)
        requires
            source@.len() < usize::MAX,
        ensures
            r.wf(),
            r.source@ == source@,
            r.messages@.len() == 0,
    {
        MessagesHandler { source, messages: Vec::new() }
    }

    /// Records one message at the end.
    fn writeMessage_handled(&mut self, sourcerange: Option<SourceRange>, msg: &str, lvl: StatusLevel)
        requires
            old(self).wf(),
            match sourcerange {
                None => true,
                Some(r) => range_in(old(self).source@, r),
            },
        ensures
            final(self).wf(),
            final(self).source@ == old(self).source@,
            final(self).messages@.len() == old(self).messages@.len() + 1,
            final(self).messages@.drop_last() == old(self).messages@,
            recorded(final(self).messages@.last(), lvl, sourcerange, msg@),
    {
        let m = SourceMessage { status_level: lvl, sourcerange, message: msg.to_owned() };
        self.messages.push(m);
        assert(self.messages@.drop_last() =~= old(self).messages@);
        assert forall|i: int| 0 <= i < self.messages@.len() implies match #[trigger] self.messages@[i].sourcerange {
            None => true,
            Some(r) => range_in(self.source@, r),
        } by {
            if i < old(self).messages@.len() {
                assert(self.messages@[i] == old(self).messages@[i]);
            }
        }
    }

    /// Records a diagnostic that the engine reports with an optional span
    /// (character indexes into the buffer). A diagnostic code has no place in
    /// the document, and neither has a bug or a cancelled level: callers stop
    /// the run on those before they get here.
    pub fn emit(&mut self, cmsp: Option<(usize, usize)>, msg: &str, code: Option<&str>, lvl: EngineLevel)
        requires
            old(self).wf(),
            code.is_none(),
            !is_unrecoverable(lvl),
            span_in(old(self).source@, cmsp),
        ensures
            final(self).wf(),
            final(self).source@ == old(self).source@,
            final(self).messages@.len() == old(self).messages@.len() + 1,
            final(self).messages@.drop_last() == old(self).messages@,
            recorded(
                final(self).messages@.last(),
                status_of(lvl),
                opt_range_at(old(self).source@, cmsp),
                msg@,
            ),
    {
        let sourcerange = match cmsp {
            Some(sp) => Some(SourceRange::new(&self.source, sp.0, sp.1)),
            None => None,
        };
        self.writeMessage_handled(sourcerange, msg, level_to_status_level(lvl));
    }

    /// Records a free-form note of the renderer. Help and note levels are
    /// left out.
    pub fn custom_emit(&mut self, msg: &str, lvl: EngineLevel)
        requires
            old(self).wf(),
            !is_unrecoverable(lvl),
        ensures
            final(self).wf(),
            final(self).source@ == old(self).source@,
            is_advisory(lvl) ==> final(self).messages@ == old(self).messages@,
            !is_advisory(lvl) ==> {
                &&& final(self).messages@.len() == old(self).messages@.len() + 1
                &&& final(self).messages@.drop_last() == old(self).messages@
                &&& recorded(final(self).messages@.last(), status_of(lvl), None, msg@)
            },
    {
        if match lvl {
            EngineLevel::Help | EngineLevel::Note => true,
            _ => false,
        } {
            return;
        }
        self.writeMessage_handled(None, msg, level_to_status_level(lvl));
    }
}

/// Appending a message to the list appends its line to the block, after the
/// lines of the messages before it.
pub proof fn lemma_messages_in_order(msgs: Seq<SourceMessage>, m: SourceMessage)
    ensures
        messages_text(msgs.push(m)) == messages_text(msgs) + message_text(
            m.status_level,
            m.sourcerange,
            m.message@,
        ),
{
    assert(msgs.push(m).drop_last() =~= msgs);
}

/// The lines of two lists one after the other are the lines of the joined list.
pub proof fn lemma_messages_concat(a: Seq<SourceMessage>, b: Seq<SourceMessage>)
    ensures
        messages_text(a + b) == messages_text(a) + messages_text(b),
    decreases b.len(),
{
    if b.len() == 0 {
        assert(a + b =~= a);
        assert(messages_text(a) + messages_text(b) =~= messages_text(a));
    } else {
        lemma_messages_concat(a, b.drop_last());
        assert((a + b).drop_last() =~= a + b.drop_last());
        assert((a + b).last() == b.last());
        assert(messages_text(a + b) =~= messages_text(a) + messages_text(b));
    }
}

/// With no diagnostics the block holds nothing between its braces.
pub proof fn lemma_no_messages(msgs: Seq<SourceMessage>)
    requires
        msgs.len() == 0,
    ensures
        messages_block(msgs) == "MESSAGES {\n"@ + "}"@,
{
    assert(messages_block(msgs) =~= "MESSAGES {\n"@ + "}"@);
}

/// Two lists whose messages agree in severity, range and text give the same
/// block, letter for letter.
pub proof fn lemma_messages_determined(a: Seq<SourceMessage>, b: Seq<SourceMessage>)
    requires
        a.len() == b.len(),
        forall|i: int|
            0 <= i < a.len() ==> recorded(#[trigger] a[i], b[i].status_level, b[i].sourcerange, b[i].message@),
    ensures
        messages_text(a) == messages_text(b),
        messages_block(a) == messages_block(b),
    decreases a.len(),
{
    if a.len() > 0 {
        let n = a.len() - 1;
        assert(recorded(a[n], b[n].status_level, b[n].sourcerange, b[n].message@));
        let a1 = a.drop_last();
        let b1 = b.drop_last();
        assert forall|i: int| 0 <= i < a1.len() implies recorded(
            #[trigger] a1[i],
            b1[i].status_level,
            b1[i].sourcerange,
            b1[i].message@,
        ) by {
            assert(a1[i] == a[i]);
            assert(recorded(a[i], b[i].status_level, b[i].sourcerange, b[i].message@));
        }
        lemma_messages_determined(a1, b1);
    }
}

/* ----------------- Document ----------------- */

/// How a document opens, up to and including its messages block.
pub open spec fn document_head(msgs: Seq<SourceMessage>) -> Seq<char> {
    "RUST_PARSE_DESCRIBE 0.1 {\n"@ + messages_block(msgs)
}

pub open spec fn document_end() -> Seq<char> {
    "\n}"@
}

/// Writes the document's header and its messages block. The outline, if
/// there is one, follows, and then `write_document_end`.
pub fn write_document_head(writer: &mut TokenWriter, msgs: &Vec<SourceMessage>)
    ensures
        final(writer).out@ == old(writer).out@ + document_head(msgs@),
{
    writer.writeRaw("RUST_PARSE_DESCRIBE 0.1 {\n");
    output_messages(writer, msgs);
    assert(writer.out@ =~= old(writer).out@ + document_head(msgs@));
}

/// Closes the document.
pub fn write_document_end(writer: &mut TokenWriter)
    ensures
        final(writer).out@ == old(writer).out@ + document_end(),
{
    writer.writeRaw("\n}");
}

/* ----------------- Module files ----------------- */

/// The module file name that stands for the buffer being parsed.
pub open spec fn placeholder_name() -> Seq<char> {
    "mod.rs"@
}

/// Answers the engine's questions on module files without reading any: the
/// one placeholder name exists, and every file reads as empty.
pub struct DummyFileLoader {
    pub modName: String,
}

impl DummyFileLoader {
    pub fn new() -> (r: DummyFileLoader)
        ensures
            r.modName@ == placeholder_name(),
    {
        DummyFileLoader { modName: "mod.rs".to_owned() }
    }

    /// Whether a file whose name (the last part of its path) is `file_name`
    /// exists.
    pub fn file_exists(&self, file_name: &Option<String>) -> (r: bool)
        ensures
            r == match file_name {
                None => false,
                Some(n) => n@ == self.modName@,
            },
    {
        match file_name {
            None => false,
            Some(n) => *n == self.modName,
        }
    }

    /// What any file reads as.
    pub fn read_file(&self) -> (r: String)
        ensures
            r@.len() == 0,
    {
        String::new()
    }
}

} // verus!
