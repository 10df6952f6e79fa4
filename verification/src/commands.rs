use vstd::prelude::*;

use crate::codec::{bytes_eq, find_byte, first_at, trim, trim_bytes};
use crate::digits::{all_digits, digits_value, parse_usize};
use crate::errors::{ParseError, ParseErrorV};
use crate::wire::{
    parse_body_spec, parse_meta_spec, BodyText, BodyTokens, MetaText, MetaTokens,
};

verus! {

/// A fully parsed mutation command, with its textual payload still in token
/// form: what the owner loop receives from the command channel after the
/// envelope has been read.
#[derive(PartialEq, Eq, Debug)]
pub enum Command {
    Add(BodyText),
    Remove(usize),
    Update(usize, BodyText),
    Meta(MetaText),
}

/// Spec-level image of a [`Command`].
pub enum CommandV {
    Add(BodyTokens),
    Remove(usize),
    Update(usize, BodyTokens),
    Meta(MetaTokens),
}

impl View for Command {
    type V = CommandV;

    open spec fn view(&self) -> CommandV {
        match self {
            Command::Add(b) => CommandV::Add(b@),
            Command::Remove(i) => CommandV::Remove(*i),
            Command::Update(i, b) => CommandV::Update(*i, b@),
            Command::Meta(m) => CommandV::Meta(m@),
        }
    }
}

/// `"body":`, the field that carries a command's payload.
pub open spec fn body_prefix() -> Seq<u8> {
    seq![34u8, 98u8, 111u8, 100u8, 121u8, 34u8, 58u8]
}

pub open spec fn name_add() -> Seq<u8> {
    seq![65u8, 100u8, 100u8]
}

pub open spec fn name_remove() -> Seq<u8> {
    seq![82u8, 101u8, 109u8, 111u8, 118u8, 101u8]
}

pub open spec fn name_update() -> Seq<u8> {
    seq![85u8, 112u8, 100u8, 97u8, 116u8, 101u8]
}

pub open spec fn name_meta() -> Seq<u8> {
    seq![77u8, 101u8, 116u8, 97u8]
}

/// Reads the event name out of the envelope's first field: whatever follows
/// the first colon, unquoted. The field's key is not inspected.
pub open spec fn parse_event_name_spec(head: Seq<u8>) -> Result<Seq<u8>, ParseErrorV> {
    let c = first_at(head, 58);
    if c == head.len() {
        Err(ParseErrorV::MissingColon)
    } else {
        let val = trim(head.skip(c + 1));
        if val.len() < 2 || val[0] != 34 || val.last() != 34 {
            Err(ParseErrorV::BadEventType(val))
        } else {
            Ok(val.subrange(1, val.len() - 1))
        }
    }
}

/// Reads the target index of a `Remove`/`Update` payload, an object of the
/// shape `{"<index>": <value>}`, and hands back the index together with the
/// value text after the colon.
pub open spec fn parse_index_spec(obj: Seq<u8>) -> Result<(usize, Seq<u8>), ParseErrorV> {
    if obj.len() < 2 || obj[0] != 123 || obj.last() != 125 {
        Err(ParseErrorV::MissingBraces)
    } else {
        let inner = trim(obj.subrange(1, obj.len() - 1));
        if inner.len() == 0 || inner[0] != 34 {
            Err(ParseErrorV::BadIndex)
        } else {
            let rest = inner.skip(1);
            let q = first_at(rest, 34);
            if q == rest.len() {
                Err(ParseErrorV::BadIndex)
            } else {
                let digits = rest.take(q);
                let after = trim(rest.skip(q + 1));
                if after.len() == 0 || after[0] != 58 {
                    Err(ParseErrorV::MissingColon)
                } else if digits.len() == 0 || !all_digits(digits) || digits_value(digits)
                    > usize::MAX {
                    Err(ParseErrorV::BadIndex)
                } else {
                    Ok((digits_value(digits) as usize, after.skip(1)))
                }
            }
        }
    }
}

/// What parsing a command envelope means: braces around
/// `"event_type": "<name>"`, a comma, then the payload field. `Add` carries
/// a body; `Remove` and `Update` embed the target index as the single key of
/// the payload object; `Meta` carries a metadata record after its colon.
pub open spec fn parse_command_spec(s: Seq<u8>) -> Result<CommandV, ParseErrorV> {
    let t = trim(s);
    if t.len() < 2 || t[0] != 123 || t.last() != 125 {
        Err(ParseErrorV::MissingBraces)
    } else {
        let interior = t.subrange(1, t.len() - 1);
        let c = first_at(interior, 44);
        if c == interior.len() {
            Err(ParseErrorV::MissingField)
        } else {
            let head = interior.take(c);
            let rest = interior.skip(c + 1);
            match parse_event_name_spec(head) {
                Err(e) => Err(e),
                Ok(name) => {
                    if name == name_add() {
                        let tb = trim(rest);
                        if tb.len() < 7 || tb.take(7) != body_prefix() {
                            Err(ParseErrorV::MissingField)
                        } else {
                            match parse_body_spec(tb.skip(7)) {
                                Err(e) => Err(e),
                                Ok(b) => Ok(CommandV::Add(b)),
                            }
                        }
                    } else if name == name_remove() || name == name_update() {
                        let tb = trim(rest);
                        if tb.len() < 7 || tb.take(7) != body_prefix() {
                            Err(ParseErrorV::MissingField)
                        } else {
                            let obj = trim(tb.skip(7));
                            match parse_index_spec(obj) {
                                Err(e) => Err(e),
                                Ok(iv) => {
                                    if name == name_remove() {
                                        Ok(CommandV::Remove(iv.0))
                                    } else {
                                        match parse_body_spec(iv.1) {
                                            Err(e) => Err(e),
                                            Ok(b) => Ok(CommandV::Update(iv.0, b)),
                                        }
                                    }
                                },
                            }
                        }
                    } else if name == name_meta() {
                        let c3 = first_at(rest, 58);
                        if c3 == rest.len() {
                            Err(ParseErrorV::MissingColon)
                        } else {
                            match parse_meta_spec(rest.skip(c3 + 1)) {
                                Err(e) => Err(e),
                                Ok(m) => Ok(CommandV::Meta(m)),
                            }
                        }
                    } else {
                        Err(ParseErrorV::BadEventType(name))
                    }
                },
            }
        }
    }
}

/// Reads the event name out of the envelope's first field.
fn parse_event_name(head: &[u8]) -> (r: Result<Vec<u8>, ParseError>)
    ensures
        match r {
            Ok(n) => parse_event_name_spec(head@) == Ok::<Seq<u8>, ParseErrorV>(n@),
            Err(e) => parse_event_name_spec(head@) == Err::<Seq<u8>, ParseErrorV>(e@),
        },
{
    let c = find_byte(head, 58);
    if c == head.len() {
        return Err(ParseError::MissingColon);
    }
    proof {
        crate::codec::lemma_first_at(head@, 58);
    }
    let val = trim_bytes(vstd::slice::slice_subrange(head, c + 1, head.len()));
    proof {
        assert(head@.subrange(c + 1, head@.len() as int) =~= head@.skip(c + 1));
    }
    if val.len() < 2 || val[0] != 34 || val[val.len() - 1] != 34 {
        return Err(ParseError::BadEventType(val));
    }
    let name = crate::codec::bytes_to_vec(
        vstd::slice::slice_subrange(val.as_slice(), 1, val.len() - 1),
    );
    Ok(name)
}

/// Reads the target index of a `Remove`/`Update` payload.
fn parse_index(obj: &[u8]) -> (r: Result<(usize, Vec<u8>), ParseError>)
    ensures
        match r {
            Ok(iv) => parse_index_spec(obj@) == Ok::<(usize, Seq<u8>), ParseErrorV>(
                (iv.0, iv.1@),
            ),
            Err(e) => parse_index_spec(obj@) == Err::<(usize, Seq<u8>), ParseErrorV>(e@),
        },
{
    if obj.len() < 2 || obj[0] != 123 || obj[obj.len() - 1] != 125 {
        return Err(ParseError::MissingBraces);
    }
    let inner = trim_bytes(vstd::slice::slice_subrange(obj, 1, obj.len() - 1));
    if inner.len() == 0 || inner[0] != 34 {
        return Err(ParseError::BadIndex);
    }
    let rest = vstd::slice::slice_subrange(inner.as_slice(), 1, inner.len());
    proof {
        assert(rest@ =~= inner@.skip(1));
    }
    let q = find_byte(rest, 34);
    if q == rest.len() {
        return Err(ParseError::BadIndex);
    }
    proof {
        crate::codec::lemma_first_at(rest@, 34);
    }
    let digits = vstd::slice::slice_subrange(rest, 0, q);
    proof {
        assert(digits@ =~= rest@.take(q as int));
    }
    let after = trim_bytes(vstd::slice::slice_subrange(rest, q + 1, rest.len()));
    proof {
        assert(rest@.subrange(q + 1, rest@.len() as int) =~= rest@.skip(q + 1));
    }
    if after.len() == 0 || after[0] != 58 {
        return Err(ParseError::MissingColon);
    }
    let idx = match parse_usize(digits) {
        Err(_) => {
            return Err(ParseError::BadIndex);
        },
        Ok(v) => v,
    };
    let val = crate::codec::bytes_to_vec(
        vstd::slice::slice_subrange(after.as_slice(), 1, after.len()),
    );
    proof {
        assert(val@ =~= after@.skip(1));
    }
    Ok((idx, val))
}

/// Parses one mutation command envelope, exactly as
/// [`parse_command_spec`] reads it.
pub fn parse_command(input: &[u8]) -> (r: Result<Command, ParseError>)
    ensures
        match r {
            Ok(c) => parse_command_spec(input@) == Ok::<CommandV, ParseErrorV>(c@),
            Err(e) => parse_command_spec(input@) == Err::<CommandV, ParseErrorV>(e@),
        },
{
    let t = trim_bytes(input);
    if t.len() < 2 || t[0] != 123 || t[t.len() - 1] != 125 {
        return Err(ParseError::MissingBraces);
    }
    let interior = vstd::slice::slice_subrange(t.as_slice(), 1, t.len() - 1);
    proof {
        assert(interior@ =~= trim(input@).subrange(1, trim(input@).len() - 1));
    }
    let c = find_byte(interior, 44);
    if c == interior.len() {
        return Err(ParseError::MissingField);
    }
    proof {
        crate::codec::lemma_first_at(interior@, 44);
    }
    let head = vstd::slice::slice_subrange(interior, 0, c);
    let rest = vstd::slice::slice_subrange(interior, c + 1, interior.len());
    proof {
        assert(head@ =~= interior@.take(c as int));
        assert(rest@ =~= interior@.skip(c + 1));
    }
    let name = match parse_event_name(head) {
        Err(e) => {
            return Err(e);
        },
        Ok(n) => n,
    };
    let n_add = [65u8, 100u8, 100u8];
    let n_remove = [82u8, 101u8, 109u8, 111u8, 118u8, 101u8];
    let n_update = [85u8, 112u8, 100u8, 97u8, 116u8, 101u8];
    let n_meta = [77u8, 101u8, 116u8, 97u8];
    proof {
        assert(n_add@ =~= name_add());
        assert(n_remove@ =~= name_remove());
        assert(n_update@ =~= name_update());
        assert(n_meta@ =~= name_meta());
    }
    let is_remove = bytes_eq(name.as_slice(), n_remove.as_slice());
    if bytes_eq(name.as_slice(), n_add.as_slice()) {
        let tb = trim_bytes(rest);
        let prefix = [34u8, 98u8, 111u8, 100u8, 121u8, 34u8, 58u8];
        proof {
            assert(prefix@ =~= body_prefix());
        }
        if tb.len() < 7 {
            return Err(ParseError::MissingField);
        }
        if !bytes_eq(vstd::slice::slice_subrange(tb.as_slice(), 0, 7), prefix.as_slice()) {
            proof {
                assert(tb@.subrange(0, 7) =~= tb@.take(7));
            }
            return Err(ParseError::MissingField);
        }
        proof {
            assert(tb@.subrange(0, 7) =~= tb@.take(7));
        }
        let payload = vstd::slice::slice_subrange(tb.as_slice(), 7, tb.len());
        proof {
            assert(payload@ =~= trim(rest@).skip(7));
        }
        match BodyText::from_string(payload) {
            Err(e) => Err(e),
            Ok(b) => Ok(Command::Add(b)),
        }
    } else if is_remove || bytes_eq(name.as_slice(), n_update.as_slice()) {
        let tb = trim_bytes(rest);
        let prefix = [34u8, 98u8, 111u8, 100u8, 121u8, 34u8, 58u8];
        proof {
            assert(prefix@ =~= body_prefix());
        }
        if tb.len() < 7 {
            return Err(ParseError::MissingField);
        }
        if !bytes_eq(vstd::slice::slice_subrange(tb.as_slice(), 0, 7), prefix.as_slice()) {
            proof {
                assert(tb@.subrange(0, 7) =~= tb@.take(7));
            }
            return Err(ParseError::MissingField);
        }
        proof {
            assert(tb@.subrange(0, 7) =~= tb@.take(7));
        }
        let obj = trim_bytes(vstd::slice::slice_subrange(tb.as_slice(), 7, tb.len()));
        proof {
            assert(tb@.subrange(7, tb@.len() as int) =~= tb@.skip(7));
        }
        match parse_index(obj.as_slice()) {
            Err(e) => Err(e),
            Ok((idx, val)) => {
                if is_remove {
                    Ok(Command::Remove(idx))
                } else {
                    match BodyText::from_string(val.as_slice()) {
                        Err(e) => Err(e),
                        Ok(b) => Ok(Command::Update(idx, b)),
                    }
                }
            },
        }
    } else if bytes_eq(name.as_slice(), n_meta.as_slice()) {
        let c3 = find_byte(rest, 58);
        if c3 == rest.len() {
            return Err(ParseError::MissingColon);
        }
        proof {
            crate::codec::lemma_first_at(rest@, 58);
        }
        let payload = vstd::slice::slice_subrange(rest, c3 + 1, rest.len());
        proof {
            assert(payload@ =~= rest@.skip(c3 + 1));
        }
        match MetaText::from_string(payload) {
            Err(e) => Err(e),
            Ok(m) => Ok(Command::Meta(m)),
        }
    } else {
        Err(ParseError::BadEventType(name))
    }
}

} // verus!
