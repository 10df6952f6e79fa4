use vstd::prelude::*;

use crate::codec::{
    bytes_eq, bytes_to_vec, check_number_token, comma_free, find_byte, first_at, is_number_token, is_ws,
    is_number_byte, join_comma_space, lemma_first_at, lemma_first_at_unique, lemma_split_join,
    lemma_trim_id,
    lemma_trim_start_skip, push_bytes, split_commas, split_on_commas, trim, trim_bytes,
    trim_start,
};
use crate::errors::{ParseError, ParseErrorV};

verus! {

// ---------------------------------------------------------------------------
// Token records
// ---------------------------------------------------------------------------
/// The nine scalar fields of a body as raw number tokens, in wire order.
/// Spec-level image of [`BodyText`].
#[verifier::ext_equal]
pub struct BodyTokens {
    pub mass: Seq<u8>,
    pub density: Seq<u8>,
    pub radius: Seq<u8>,
    pub x: Seq<u8>,
    pub y: Seq<u8>,
    pub z: Seq<u8>,
    pub vx: Seq<u8>,
    pub vy: Seq<u8>,
    pub vz: Seq<u8>,
}

/// A body as it crosses the wire: each scalar still the exact byte run that
/// was, or will be, written between the separators. The embedding converts
/// tokens to doubles (re-deriving the radius from mass and density) and
/// back.
#[derive(Clone, PartialEq, Eq, Debug)]
pub struct BodyText {
    pub mass: Vec<u8>,
    pub density: Vec<u8>,
    pub radius: Vec<u8>,
    pub x: Vec<u8>,
    pub y: Vec<u8>,
    pub z: Vec<u8>,
    pub vx: Vec<u8>,
    pub vy: Vec<u8>,
    pub vz: Vec<u8>,
}

impl View for BodyText {
    type V = BodyTokens;

    open spec fn view(&self) -> BodyTokens {
        BodyTokens {
            mass: self.mass@,
            density: self.density@,
            radius: self.radius@,
            x: self.x@,
            y: self.y@,
            z: self.z@,
            vx: self.vx@,
            vy: self.vy@,
            vz: self.vz@,
        }
    }
}

/// The two fields of the simulation constants as raw number tokens.
/// Spec-level image of [`MetaText`].
#[verifier::ext_equal]
pub struct MetaTokens {
    pub interaction_constant: Seq<u8>,
    pub time_scaling: Seq<u8>,
}

/// The simulation constants as they cross the wire, as raw number tokens.
#[derive(Clone, PartialEq, Eq, Debug)]
pub struct MetaText {
    pub interaction_constant: Vec<u8>,
    pub time_scaling: Vec<u8>,
}

impl View for MetaText {
    type V = MetaTokens;

    open spec fn view(&self) -> MetaTokens {
        MetaTokens {
            interaction_constant: self.interaction_constant@,
            time_scaling: self.time_scaling@,
        }
    }
}

/// Every field is a plausible number token.
pub open spec fn wf_body_tokens(t: BodyTokens) -> bool {
    is_number_token(t.mass) && is_number_token(t.density) && is_number_token(t.radius)
        && is_number_token(t.x) && is_number_token(t.y) && is_number_token(t.z) && is_number_token(
        t.vx,
    ) && is_number_token(t.vy) && is_number_token(t.vz)
}

/// Every field is a plausible number token.
pub open spec fn wf_meta_tokens(t: MetaTokens) -> bool {
    is_number_token(t.interaction_constant) && is_number_token(t.time_scaling)
}

// ---------------------------------------------------------------------------
// Keys
// ---------------------------------------------------------------------------
pub open spec fn key_mass() -> Seq<u8> {
    seq![109u8, 97u8, 115u8, 115u8]
}

pub open spec fn key_density() -> Seq<u8> {
    seq![100u8, 101u8, 110u8, 115u8, 105u8, 116u8, 121u8]
}

pub open spec fn key_radius() -> Seq<u8> {
    seq![114u8, 97u8, 100u8, 105u8, 117u8, 115u8]
}

pub open spec fn key_x() -> Seq<u8> {
    seq![120u8]
}

pub open spec fn key_y() -> Seq<u8> {
    seq![121u8]
}

pub open spec fn key_z() -> Seq<u8> {
    seq![122u8]
}

pub open spec fn key_vx() -> Seq<u8> {
    seq![118u8, 120u8]
}

pub open spec fn key_vy() -> Seq<u8> {
    seq![118u8, 121u8]
}

pub open spec fn key_vz() -> Seq<u8> {
    seq![118u8, 122u8]
}

pub open spec fn key_interaction_constant() -> Seq<u8> {
    seq![
        105u8, 110u8, 116u8, 101u8, 114u8, 97u8, 99u8, 116u8, 105u8, 111u8, 110u8, 95u8, 99u8,
        111u8, 110u8, 115u8, 116u8, 97u8, 110u8, 116u8,
    ]
}

pub open spec fn key_time_scaling() -> Seq<u8> {
    seq![116u8, 105u8, 109u8, 101u8, 95u8, 115u8, 99u8, 97u8, 108u8, 105u8, 110u8, 103u8]
}

// ---------------------------------------------------------------------------
// The wire shape
// ---------------------------------------------------------------------------
/// `"key": value`, exactly as the serializer writes one field.
pub open spec fn kv_text(k: Seq<u8>, v: Seq<u8>) -> Seq<u8> {
    seq![34u8] + k + seq![34u8, 58u8, 32u8] + v
}

/// The nine key/value texts of a body, in wire order.
pub open spec fn body_kvs(t: BodyTokens) -> Seq<Seq<u8>> {
    seq![
        kv_text(key_mass(), t.mass),
        kv_text(key_density(), t.density),
        kv_text(key_radius(), t.radius),
        kv_text(key_x(), t.x),
        kv_text(key_y(), t.y),
        kv_text(key_z(), t.z),
        kv_text(key_vx(), t.vx),
        kv_text(key_vy(), t.vy),
        kv_text(key_vz(), t.vz),
    ]
}

/// The full textual form of a body: the nine fields, `", "`-separated,
/// between braces.
pub open spec fn body_wire(t: BodyTokens) -> Seq<u8> {
    seq![123u8] + join_comma_space(body_kvs(t)) + seq![125u8]
}

/// The two key/value texts of the constants, in wire order.
pub open spec fn meta_kvs(t: MetaTokens) -> Seq<Seq<u8>> {
    seq![
        kv_text(key_interaction_constant(), t.interaction_constant),
        kv_text(key_time_scaling(), t.time_scaling),
    ]
}

/// The full textual form of the simulation constants.
pub open spec fn meta_wire(t: MetaTokens) -> Seq<u8> {
    seq![123u8] + join_comma_space(meta_kvs(t)) + seq![125u8]
}

// ---------------------------------------------------------------------------
// Serializers
// ---------------------------------------------------------------------------
/// Appends `"key": value`.
fn push_kv(out: &mut Vec<u8>, key: &[u8], val: &[u8])
    ensures
        final(out)@ == old(out)@ + kv_text(key@, val@),
{
    out.push(34);
    push_bytes(out, key);
    out.push(34);
    out.push(58);
    out.push(32);
    push_bytes(out, val);
    proof {
        assert(out@ =~= old(out)@ + kv_text(key@, val@));
    }
}

impl BodyText {
    /// Renders the body in its exact wire form:
    /// `{"mass": m, "density": d, "radius": r, "x": x, "y": y, "z": z,
    /// "vx": vx, "vy": vy, "vz": vz}`.
    pub fn to_wire(&self) -> (out: Vec<u8>)
        ensures
            out@ == body_wire(self@),
    {
        let mut out: Vec<u8> = Vec::new();
        out.push(123);
        push_kv(&mut out, [109u8, 97u8, 115u8, 115u8].as_slice(), self.mass.as_slice());
        push_sep(&mut out);
        push_kv(
            &mut out,
            [100u8, 101u8, 110u8, 115u8, 105u8, 116u8, 121u8].as_slice(),
            self.density.as_slice(),
        );
        push_sep(&mut out);
        push_kv(
            &mut out,
            [114u8, 97u8, 100u8, 105u8, 117u8, 115u8].as_slice(),
            self.radius.as_slice(),
        );
        push_sep(&mut out);
        push_kv(&mut out, [120u8].as_slice(), self.x.as_slice());
        push_sep(&mut out);
        push_kv(&mut out, [121u8].as_slice(), self.y.as_slice());
        push_sep(&mut out);
        push_kv(&mut out, [122u8].as_slice(), self.z.as_slice());
        push_sep(&mut out);
        push_kv(&mut out, [118u8, 120u8].as_slice(), self.vx.as_slice());
        push_sep(&mut out);
        push_kv(&mut out, [118u8, 121u8].as_slice(), self.vy.as_slice());
        push_sep(&mut out);
        push_kv(&mut out, [118u8, 122u8].as_slice(), self.vz.as_slice());
        out.push(125);
        proof {
            lemma_body_wire_join(self@);
            assert(out@ =~= body_wire(self@));
        }
        out
    }
}

impl MetaText {
    /// Renders the constants in their exact wire form:
    /// `{"interaction_constant": g, "time_scaling": s}`.
    pub fn to_wire(&self) -> (out: Vec<u8>)
        ensures
            out@ == meta_wire(self@),
    {
        let mut out: Vec<u8> = Vec::new();
        out.push(123);
        push_kv(
            &mut out,
            [
                105u8, 110u8, 116u8, 101u8, 114u8, 97u8, 99u8, 116u8, 105u8, 111u8, 110u8, 95u8,
                99u8, 111u8, 110u8, 115u8, 116u8, 97u8, 110u8, 116u8,
            ].as_slice(),
            self.interaction_constant.as_slice(),
        );
        push_sep(&mut out);
        push_kv(
            &mut out,
            [116u8, 105u8, 109u8, 101u8, 95u8, 115u8, 99u8, 97u8, 108u8, 105u8, 110u8, 103u8].as_slice(),
            self.time_scaling.as_slice(),
        );
        out.push(125);
        proof {
            lemma_meta_wire_join(self@);
            assert(out@ =~= meta_wire(self@));
        }
        out
    }
}

/// Appends the `", "` separator.
fn push_sep(out: &mut Vec<u8>)
    ensures
        final(out)@ == old(out)@ + seq![44u8, 32u8],
{
    out.push(44);
    out.push(32);
    proof {
        assert(out@ =~= old(out)@ + seq![44u8, 32u8]);
    }
}

/// The joined form of the nine body fields, written out flat.
pub proof fn lemma_body_wire_join(t: BodyTokens)
    ensures
        body_wire(t) == seq![123u8] + body_kvs(t)[0] + seq![44u8, 32u8] + body_kvs(t)[1] + seq![
            44u8,
            32u8,
        ] + body_kvs(t)[2] + seq![44u8, 32u8] + body_kvs(t)[3] + seq![44u8, 32u8] + body_kvs(t)[4]
            + seq![44u8, 32u8] + body_kvs(t)[5] + seq![44u8, 32u8] + body_kvs(t)[6] + seq![
            44u8,
            32u8,
        ] + body_kvs(t)[7] + seq![44u8, 32u8] + body_kvs(t)[8] + seq![125u8],
{
    reveal_with_fuel(join_comma_space, 11);
    let p = body_kvs(t);
    assert(p.drop_last() =~= seq![p[0], p[1], p[2], p[3], p[4], p[5], p[6], p[7]]);
    assert(p.drop_last().drop_last() =~= seq![p[0], p[1], p[2], p[3], p[4], p[5], p[6]]);
    assert(p.drop_last().drop_last().drop_last() =~= seq![p[0], p[1], p[2], p[3], p[4], p[5]]);
    assert(seq![p[0], p[1], p[2], p[3], p[4], p[5]].drop_last() =~= seq![
        p[0],
        p[1],
        p[2],
        p[3],
        p[4],
    ]);
    assert(seq![p[0], p[1], p[2], p[3], p[4]].drop_last() =~= seq![p[0], p[1], p[2], p[3]]);
    assert(seq![p[0], p[1], p[2], p[3]].drop_last() =~= seq![p[0], p[1], p[2]]);
    assert(seq![p[0], p[1], p[2]].drop_last() =~= seq![p[0], p[1]]);
    assert(seq![p[0], p[1]].drop_last() =~= seq![p[0]]);
    assert(body_wire(t) =~= seq![123u8] + p[0] + seq![44u8, 32u8] + p[1] + seq![44u8, 32u8] + p[2]
        + seq![44u8, 32u8] + p[3] + seq![44u8, 32u8] + p[4] + seq![44u8, 32u8] + p[5] + seq![
        44u8,
        32u8,
    ] + p[6] + seq![44u8, 32u8] + p[7] + seq![44u8, 32u8] + p[8] + seq![125u8]);
}

/// The joined form of the two constant fields, written out flat.
pub proof fn lemma_meta_wire_join(t: MetaTokens)
    ensures
        meta_wire(t) == seq![123u8] + meta_kvs(t)[0] + seq![44u8, 32u8] + meta_kvs(t)[1] + seq![
            125u8,
        ],
{
    reveal_with_fuel(join_comma_space, 4);
    let p = meta_kvs(t);
    assert(p.drop_last() =~= seq![p[0]]);
    assert(meta_wire(t) =~= seq![123u8] + p[0] + seq![44u8, 32u8] + p[1] + seq![125u8]);
}

// ---------------------------------------------------------------------------
// Parsing one key/value pair
// ---------------------------------------------------------------------------
/// How one `"key": value` segment is read: optional whitespace, a quoted
/// key, a colon, then a number token, whitespace-tolerant around each part.
pub open spec fn parse_kv_spec(s: Seq<u8>) -> Result<(Seq<u8>, Seq<u8>), ParseErrorV> {
    let t = trim(s);
    if t.len() == 0 || t[0] != 34 {
        Err(ParseErrorV::UnquotedKey)
    } else {
        let rest = t.skip(1);
        let q = first_at(rest, 34);
        if q == rest.len() {
            Err(ParseErrorV::UnquotedKey)
        } else {
            let k = rest.take(q);
            let after = trim(rest.skip(q + 1));
            if after.len() == 0 || after[0] != 58 {
                Err(ParseErrorV::MissingColon)
            } else {
                let v = trim(after.skip(1));
                if !is_number_token(v) {
                    Err(ParseErrorV::BadNumber)
                } else {
                    Ok((k, v))
                }
            }
        }
    }
}

/// Reads one `"key": value` segment.
pub fn parse_kv(seg: &[u8]) -> (r: Result<(Vec<u8>, Vec<u8>), ParseError>)
    ensures
        match r {
            Ok(kv) => parse_kv_spec(seg@) == Ok::<(Seq<u8>, Seq<u8>), ParseErrorV>((kv.0@, kv.1@)),
            Err(e) => parse_kv_spec(seg@) == Err::<(Seq<u8>, Seq<u8>), ParseErrorV>(e@),
        },
{
    let t = trim_bytes(seg);
    if t.len() == 0 || t[0] != 34 {
        return Err(ParseError::UnquotedKey);
    }
    let rest = vstd::slice::slice_subrange(t.as_slice(), 1, t.len());
    proof {
        assert(rest@ =~= trim(seg@).skip(1));
    }
    let q = find_byte(rest, 34);
    proof {
        lemma_first_at(rest@, 34);
    }
    if q == rest.len() {
        return Err(ParseError::UnquotedKey);
    }
    let k = bytes_to_vec(vstd::slice::slice_subrange(rest, 0, q));
    proof {
        assert(k@ =~= rest@.take(q as int));
    }
    let after = trim_bytes(vstd::slice::slice_subrange(rest, q + 1, rest.len()));
    proof {
        assert(rest@.subrange(q + 1, rest@.len() as int) =~= rest@.skip(q + 1));
    }
    if after.len() == 0 || after[0] != 58 {
        return Err(ParseError::MissingColon);
    }
    let v = trim_bytes(vstd::slice::slice_subrange(after.as_slice(), 1, after.len()));
    proof {
        assert(after@.subrange(1, after@.len() as int) =~= after@.skip(1));
    }
    if !check_number_token(v.as_slice()) {
        return Err(ParseError::BadNumber);
    }
    Ok((k, v))
}

// ---------------------------------------------------------------------------
// Parsing a whole body / metadata record
// ---------------------------------------------------------------------------
/// The token a field holds before its key is seen: the number zero.
pub open spec fn zero_token() -> Seq<u8> {
    seq![48u8]
}

/// Every field starts as zero; keys then assign, later occurrences winning.
pub open spec fn zero_body_tokens() -> BodyTokens {
    BodyTokens {
        mass: zero_token(),
        density: zero_token(),
        radius: zero_token(),
        x: zero_token(),
        y: zero_token(),
        z: zero_token(),
        vx: zero_token(),
        vy: zero_token(),
        vz: zero_token(),
    }
}

/// Every field starts as zero.
pub open spec fn zero_meta_tokens() -> MetaTokens {
    MetaTokens { interaction_constant: zero_token(), time_scaling: zero_token() }
}

/// Reads one segment into the body record: the key selects the field the
/// value token replaces; a key that is not a body field is rejected, named
/// in the error.
pub open spec fn apply_body_kv(acc: BodyTokens, seg: Seq<u8>) -> Result<BodyTokens, ParseErrorV> {
    match parse_kv_spec(seg) {
        Err(e) => Err(e),
        Ok(kv) => {
            let k = kv.0;
            let v = kv.1;
            if k == key_mass() {
                Ok(BodyTokens { mass: v, ..acc })
            } else if k == key_density() {
                Ok(BodyTokens { density: v, ..acc })
            } else if k == key_radius() {
                Ok(BodyTokens { radius: v, ..acc })
            } else if k == key_x() {
                Ok(BodyTokens { x: v, ..acc })
            } else if k == key_y() {
                Ok(BodyTokens { y: v, ..acc })
            } else if k == key_z() {
                Ok(BodyTokens { z: v, ..acc })
            } else if k == key_vx() {
                Ok(BodyTokens { vx: v, ..acc })
            } else if k == key_vy() {
                Ok(BodyTokens { vy: v, ..acc })
            } else if k == key_vz() {
                Ok(BodyTokens { vz: v, ..acc })
            } else {
                Err(ParseErrorV::UnknownBodyKey(k))
            }
        },
    }
}

/// Folds the segments over the starting record, left to right.
pub open spec fn apply_body_kvs(acc: BodyTokens, segs: Seq<Seq<u8>>) -> Result<
    BodyTokens,
    ParseErrorV,
>
    decreases segs.len(),
{
    if segs.len() == 0 {
        Ok(acc)
    } else {
        match apply_body_kvs(acc, segs.drop_last()) {
            Err(e) => Err(e),
            Ok(a) => apply_body_kv(a, segs.last()),
        }
    }
}

/// Reads one segment into the constants record.
pub open spec fn apply_meta_kv(acc: MetaTokens, seg: Seq<u8>) -> Result<MetaTokens, ParseErrorV> {
    match parse_kv_spec(seg) {
        Err(e) => Err(e),
        Ok(kv) => {
            let k = kv.0;
            let v = kv.1;
            if k == key_interaction_constant() {
                Ok(MetaTokens { interaction_constant: v, ..acc })
            } else if k == key_time_scaling() {
                Ok(MetaTokens { time_scaling: v, ..acc })
            } else {
                Err(ParseErrorV::UnknownMetaKey(k))
            }
        },
    }
}

/// Folds the segments over the starting record, left to right.
pub open spec fn apply_meta_kvs(acc: MetaTokens, segs: Seq<Seq<u8>>) -> Result<
    MetaTokens,
    ParseErrorV,
>
    decreases segs.len(),
{
    if segs.len() == 0 {
        Ok(acc)
    } else {
        match apply_meta_kvs(acc, segs.drop_last()) {
            Err(e) => Err(e),
            Ok(a) => apply_meta_kv(a, segs.last()),
        }
    }
}

/// What parsing a body text means: trim, require braces, split the interior
/// at commas, and fold every `"key": value` segment into a record that
/// starts with every field zero.
pub open spec fn parse_body_spec(s: Seq<u8>) -> Result<BodyTokens, ParseErrorV> {
    let t = trim(s);
    if t.len() < 2 || t[0] != 123 || t.last() != 125 {
        Err(ParseErrorV::MissingBraces)
    } else {
        apply_body_kvs(zero_body_tokens(), split_commas(t.subrange(1, t.len() - 1)))
    }
}

/// What parsing a metadata text means.
pub open spec fn parse_meta_spec(s: Seq<u8>) -> Result<MetaTokens, ParseErrorV> {
    let t = trim(s);
    if t.len() < 2 || t[0] != 123 || t.last() != 125 {
        Err(ParseErrorV::MissingBraces)
    } else {
        apply_meta_kvs(zero_meta_tokens(), split_commas(t.subrange(1, t.len() - 1)))
    }
}

proof fn lemma_apply_body_kvs_err(acc: BodyTokens, segs: Seq<Seq<u8>>, j: int, e: ParseErrorV)
    requires
        0 <= j <= segs.len(),
        apply_body_kvs(acc, segs.take(j)) == Err::<BodyTokens, ParseErrorV>(e),
    ensures
        apply_body_kvs(acc, segs) == Err::<BodyTokens, ParseErrorV>(e),
    decreases segs.len() - j,
{
    if j == segs.len() {
        assert(segs.take(j) =~= segs);
    } else {
        assert(segs.take(j + 1).drop_last() =~= segs.take(j));
        lemma_apply_body_kvs_err(acc, segs, j + 1, e);
    }
}

proof fn lemma_apply_meta_kvs_err(acc: MetaTokens, segs: Seq<Seq<u8>>, j: int, e: ParseErrorV)
    requires
        0 <= j <= segs.len(),
        apply_meta_kvs(acc, segs.take(j)) == Err::<MetaTokens, ParseErrorV>(e),
    ensures
        apply_meta_kvs(acc, segs) == Err::<MetaTokens, ParseErrorV>(e),
    decreases segs.len() - j,
{
    if j == segs.len() {
        assert(segs.take(j) =~= segs);
    } else {
        assert(segs.take(j + 1).drop_last() =~= segs.take(j));
        lemma_apply_meta_kvs_err(acc, segs, j + 1, e);
    }
}

/// The zero token as a vector.
fn zero_token_vec() -> (v: Vec<u8>)
    ensures
        v@ == zero_token(),
{
    let mut v: Vec<u8> = Vec::new();
    v.push(48);
    proof {
        assert(v@ =~= zero_token());
    }
    v
}

impl BodyText {
    /// A record with every field zero, as the parser starts from.
    pub fn zeroed() -> (bt: BodyText)
        ensures
            bt@ == zero_body_tokens(),
        {
        let bt = BodyText {
            mass: zero_token_vec(),
            density: zero_token_vec(),
            radius: zero_token_vec(),
            x: zero_token_vec(),
            y: zero_token_vec(),
            z: zero_token_vec(),
            vx: zero_token_vec(),
            vy: zero_token_vec(),
            vz: zero_token_vec(),
        };
        proof {
            assert(bt@ =~~= zero_body_tokens());
        }
        bt
    }

    /// Parses the textual form of a body, accepting exactly the nine field
    /// keys and rejecting any other with an error that names it. Fields not
    /// named in the text keep the value zero; a repeated key keeps its last
    /// value. The radius token is carried as written: the caller re-derives
    /// the radius from mass and density after the float conversion.
    pub fn from_string(text: &[u8]) -> (r: Result<BodyText, ParseError>)
        ensures
            match r {
                Ok(bt) => parse_body_spec(text@) == Ok::<BodyTokens, ParseErrorV>(bt@),
                Err(e) => parse_body_spec(text@) == Err::<BodyTokens, ParseErrorV>(e@),
            },
    {
        let t = trim_bytes(text);
        if t.len() < 2 || t[0] != 123 || t[t.len() - 1] != 125 {
            return Err(ParseError::MissingBraces);
        }
        let interior = vstd::slice::slice_subrange(t.as_slice(), 1, t.len() - 1);
        let ghost segs = split_commas(trim(text@).subrange(1, trim(text@).len() - 1));
        proof {
            assert(interior@ =~= trim(text@).subrange(1, trim(text@).len() - 1));
        }
        let parts = split_on_commas(interior);
        proof {
            assert(parse_body_spec(text@) == apply_body_kvs(zero_body_tokens(), segs));
        }
        let mut acc = BodyText::zeroed();
        let mut j: usize = 0;
        while j < parts.len()
            invariant
                0 <= j <= parts@.len(),
                parts@.map_values(|v: Vec<u8>| v@) == segs,
                parse_body_spec(text@) == apply_body_kvs(zero_body_tokens(), segs),
                apply_body_kvs(zero_body_tokens(), segs.take(j as int)) == Ok::<
                    BodyTokens,
                    ParseErrorV,
                >(acc@),
            decreases parts@.len() - j,
        {
            let ghost prev = acc@;
            proof {
                assert(segs.take(j + 1).drop_last() =~= segs.take(j as int));
                assert(segs.take(j + 1).last() == segs[j as int]);
                assert(parts@.map_values(|v: Vec<u8>| v@)[j as int] == parts@[j as int]@);
            }
            match parse_kv(parts[j].as_slice()) {
                Err(e) => {
                    proof {
                        assert(parse_kv_spec(segs[j as int]) == Err::<(Seq<u8>, Seq<u8>), ParseErrorV>(e@));
                        assert(apply_body_kvs(zero_body_tokens(), segs.take(j + 1))
                            == Err::<BodyTokens, ParseErrorV>(e@));
                        lemma_apply_body_kvs_err(zero_body_tokens(), segs, j + 1, e@);
                        assert(apply_body_kvs(zero_body_tokens(), segs) == Err::<BodyTokens, ParseErrorV>(e@));
                        assert(parse_body_spec(text@) == Err::<BodyTokens, ParseErrorV>(e@));
                    }
                    return Err(e);
                },
                Ok((k, v)) => {
                    let km = [109u8, 97u8, 115u8, 115u8];
                    let kd = [100u8, 101u8, 110u8, 115u8, 105u8, 116u8, 121u8];
                    let kr = [114u8, 97u8, 100u8, 105u8, 117u8, 115u8];
                    let kx = [120u8];
                    let ky = [121u8];
                    let kz = [122u8];
                    let kvx = [118u8, 120u8];
                    let kvy = [118u8, 121u8];
                    let kvz = [118u8, 122u8];
                    proof {
                        assert(km@ =~= key_mass());
                        assert(kd@ =~= key_density());
                        assert(kr@ =~= key_radius());
                        assert(kx@ =~= key_x());
                        assert(ky@ =~= key_y());
                        assert(kz@ =~= key_z());
                        assert(kvx@ =~= key_vx());
                        assert(kvy@ =~= key_vy());
                        assert(kvz@ =~= key_vz());
                    }
                    if bytes_eq(k.as_slice(), km.as_slice()) {
                        acc.mass = v;
                        proof {
                            assert(acc@ =~~= (BodyTokens { mass: v@, ..prev }));
                        }
                    } else if bytes_eq(k.as_slice(), kd.as_slice()) {
                        acc.density = v;
                        proof {
                            assert(acc@ =~~= (BodyTokens { density: v@, ..prev }));
                        }
                    } else if bytes_eq(k.as_slice(), kr.as_slice()) {
                        acc.radius = v;
                        proof {
                            assert(acc@ =~~= (BodyTokens { radius: v@, ..prev }));
                        }
                    } else if bytes_eq(k.as_slice(), kx.as_slice()) {
                        acc.x = v;
                        proof {
                            assert(acc@ =~~= (BodyTokens { x: v@, ..prev }));
                        }
                    } else if bytes_eq(k.as_slice(), ky.as_slice()) {
                        acc.y = v;
                        proof {
                            assert(acc@ =~~= (BodyTokens { y: v@, ..prev }));
                        }
                    } else if bytes_eq(k.as_slice(), kz.as_slice()) {
                        acc.z = v;
                        proof {
                            assert(acc@ =~~= (BodyTokens { z: v@, ..prev }));
                        }
                    } else if bytes_eq(k.as_slice(), kvx.as_slice()) {
                        acc.vx = v;
                        proof {
                            assert(acc@ =~~= (BodyTokens { vx: v@, ..prev }));
                        }
                    } else if bytes_eq(k.as_slice(), kvy.as_slice()) {
                        acc.vy = v;
                        proof {
                            assert(acc@ =~~= (BodyTokens { vy: v@, ..prev }));
                        }
                    } else if bytes_eq(k.as_slice(), kvz.as_slice()) {
                        acc.vz = v;
                        proof {
                            assert(acc@ =~~= (BodyTokens { vz: v@, ..prev }));
                        }
                    } else {
                        proof {
                            assert(apply_body_kvs(zero_body_tokens(), segs.take(j + 1))
                                == Err::<BodyTokens, ParseErrorV>(ParseErrorV::UnknownBodyKey(k@)));
                            lemma_apply_body_kvs_err(
                                zero_body_tokens(),
                                segs,
                                j + 1,
                                ParseErrorV::UnknownBodyKey(k@),
                            );
                            assert(parse_body_spec(text@) == Err::<BodyTokens, ParseErrorV>(
                                ParseErrorV::UnknownBodyKey(k@),
                            ));
                        }
                        return Err(ParseError::UnknownBodyKey(k));
                    }
                },
            }
            j += 1;
        }
        proof {
            assert(segs.take(parts@.len() as int) =~= segs);
        }
        Ok(acc)
    }
}

impl MetaText {
    /// A record with every field zero, as the parser starts from.
    pub fn zeroed() -> (mt: MetaText)
        ensures
            mt@ == zero_meta_tokens(),
        {
        let mt = MetaText {
            interaction_constant: zero_token_vec(),
            time_scaling: zero_token_vec(),
        };
        proof {
            assert(mt@ =~~= zero_meta_tokens());
        }
        mt
    }

    /// Parses the textual form of the simulation constants, accepting
    /// exactly its two field keys and rejecting any other with an error
    /// that names it.
    pub fn from_string(text: &[u8]) -> (r: Result<MetaText, ParseError>)
        ensures
            match r {
                Ok(mt) => parse_meta_spec(text@) == Ok::<MetaTokens, ParseErrorV>(mt@),
                Err(e) => parse_meta_spec(text@) == Err::<MetaTokens, ParseErrorV>(e@),
            },
    {
        let t = trim_bytes(text);
        if t.len() < 2 || t[0] != 123 || t[t.len() - 1] != 125 {
            return Err(ParseError::MissingBraces);
        }
        let interior = vstd::slice::slice_subrange(t.as_slice(), 1, t.len() - 1);
        let ghost segs = split_commas(trim(text@).subrange(1, trim(text@).len() - 1));
        proof {
            assert(interior@ =~= trim(text@).subrange(1, trim(text@).len() - 1));
        }
        let parts = split_on_commas(interior);
        proof {
            assert(parse_meta_spec(text@) == apply_meta_kvs(zero_meta_tokens(), segs));
        }
        let mut acc = MetaText::zeroed();
        let mut j: usize = 0;
        while j < parts.len()
            invariant
                0 <= j <= parts@.len(),
                parts@.map_values(|v: Vec<u8>| v@) == segs,
                parse_meta_spec(text@) == apply_meta_kvs(zero_meta_tokens(), segs),
                apply_meta_kvs(zero_meta_tokens(), segs.take(j as int)) == Ok::<
                    MetaTokens,
                    ParseErrorV,
                >(acc@),
            decreases parts@.len() - j,
        {
            let ghost prev = acc@;
            proof {
                assert(segs.take(j + 1).drop_last() =~= segs.take(j as int));
                assert(segs.take(j + 1).last() == segs[j as int]);
                assert(parts@.map_values(|v: Vec<u8>| v@)[j as int] == parts@[j as int]@);
            }
            match parse_kv(parts[j].as_slice()) {
                Err(e) => {
                    proof {
                        assert(parse_kv_spec(segs[j as int]) == Err::<(Seq<u8>, Seq<u8>), ParseErrorV>(e@));
                        assert(apply_meta_kvs(zero_meta_tokens(), segs.take(j + 1))
                            == Err::<MetaTokens, ParseErrorV>(e@));
                        lemma_apply_meta_kvs_err(zero_meta_tokens(), segs, j + 1, e@);
                        assert(parse_meta_spec(text@) == Err::<MetaTokens, ParseErrorV>(e@));
                    }
                    return Err(e);
                },
                Ok((k, v)) => {
                    let kg = [
                        105u8, 110u8, 116u8, 101u8, 114u8, 97u8, 99u8, 116u8, 105u8, 111u8, 110u8,
                        95u8, 99u8, 111u8, 110u8, 115u8, 116u8, 97u8, 110u8, 116u8,
                    ];
                    let ks = [
                        116u8, 105u8, 109u8, 101u8, 95u8, 115u8, 99u8, 97u8, 108u8, 105u8, 110u8,
                        103u8,
                    ];
                    proof {
                        assert(kg@ =~= key_interaction_constant());
                        assert(ks@ =~= key_time_scaling());
                    }
                    if bytes_eq(k.as_slice(), kg.as_slice()) {
                        acc.interaction_constant = v;
                        proof {
                            assert(acc@ =~~= (MetaTokens { interaction_constant: v@, ..prev }));
                        }
                    } else if bytes_eq(k.as_slice(), ks.as_slice()) {
                        acc.time_scaling = v;
                        proof {
                            assert(acc@ =~~= (MetaTokens { time_scaling: v@, ..prev }));
                        }
                    } else {
                        proof {
                            assert(apply_meta_kvs(zero_meta_tokens(), segs.take(j + 1))
                                == Err::<MetaTokens, ParseErrorV>(ParseErrorV::UnknownMetaKey(k@)));
                            lemma_apply_meta_kvs_err(
                                zero_meta_tokens(),
                                segs,
                                j + 1,
                                ParseErrorV::UnknownMetaKey(k@),
                            );
                            assert(parse_meta_spec(text@) == Err::<MetaTokens, ParseErrorV>(
                                ParseErrorV::UnknownMetaKey(k@),
                            ));
                        }
                        return Err(ParseError::UnknownMetaKey(k));
                    }
                },
            }
            j += 1;
        }
        proof {
            assert(segs.take(parts@.len() as int) =~= segs);
        }
        Ok(acc)
    }
}


// ---------------------------------------------------------------------------
// Round trip: parsing a serialized record returns it
// ---------------------------------------------------------------------------
/// No byte of `s` is a double quote.
pub open spec fn quote_free(s: Seq<u8>) -> bool {
    forall|i: int| 0 <= i < s.len() ==> #[trigger] s[i] != 34
}

/// A serialized field, with any run of whitespace before it, reads back as
/// exactly its key and its value token.
proof fn lemma_parse_kv_image(lead: Seq<u8>, k: Seq<u8>, v: Seq<u8>)
    requires
        forall|i: int| 0 <= i < lead.len() ==> is_ws(#[trigger] lead[i]),
        quote_free(k),
        is_number_token(v),
    ensures
        parse_kv_spec(lead + kv_text(k, v)) == Ok::<(Seq<u8>, Seq<u8>), ParseErrorV>((k, v)),
{
    let s = lead + kv_text(k, v);
    let kv = kv_text(k, v);
    assert(kv.len() == k.len() + v.len() + 4);
    assert(kv[0] == 34);
    assert(kv.last() == v.last());
    assert(is_number_byte(v.last()));
    assert(!is_ws(v.last()));
    lemma_trim_start_skip(s, lead.len() as int);
    assert(s.skip(lead.len() as int) =~= kv);
    assert(trim_start(kv) == kv);
    assert(trim(s) == kv);
    let rest = kv.skip(1);
    assert(rest =~= k + seq![34u8, 58u8, 32u8] + v);
    assert(forall|i: int| 0 <= i < k.len() ==> rest[i] == #[trigger] k[i]);
    assert(rest[k.len() as int] == 34);
    lemma_first_at_unique(rest, 34, k.len() as int);
    assert(rest.take(k.len() as int) =~= k);
    let tail = rest.skip(k.len() as int + 1);
    assert(tail =~= seq![58u8, 32u8] + v);
    assert(tail[0] == 58);
    assert(!is_ws(tail[0]));
    assert(tail.last() == v.last());
    assert(trim(tail) == tail);
    let val = tail.skip(1);
    assert(val =~= seq![32u8] + v);
    assert(val.skip(1) =~= v);
    assert(is_number_byte(v[0]));
    assert(!is_ws(v[0]));
    assert(trim_start(val) == trim_start(v));
    assert(trim_start(v) == v);
    assert(trim(val) == v);
}

/// A serialized field holds no comma: its key has none and its value bytes
/// are number bytes.
proof fn lemma_kv_comma_free(k: Seq<u8>, v: Seq<u8>)
    requires
        comma_free(k),
        is_number_token(v),
    ensures
        comma_free(kv_text(k, v)),
{
    let kv = kv_text(k, v);
    assert forall|i: int| 0 <= i < kv.len() implies #[trigger] kv[i] != 44 by {
        if 1 <= i < 1 + k.len() {
            assert(kv[i] == k[i - 1]);
        } else if 4 + k.len() <= i < kv.len() {
            assert(kv[i] == v[i - 4 - k.len()]);
            assert(is_number_byte(kv[i]));
        }
    }
}

/// The round-trip law for bodies: serializing any well-formed body text and
/// parsing the result yields the record back, field for field.
pub proof fn lemma_body_round_trip(t: BodyTokens)
    requires
        wf_body_tokens(t),
    ensures
        parse_body_spec(body_wire(t)) == Ok::<BodyTokens, ParseErrorV>(t),
{
    let w = body_wire(t);
    let p = body_kvs(t);
    let jn = join_comma_space(p);
    assert(quote_free(key_mass()));
    assert(quote_free(key_density()));
    assert(quote_free(key_radius()));
    assert(quote_free(key_x()));
    assert(quote_free(key_y()));
    assert(quote_free(key_z()));
    assert(quote_free(key_vx()));
    assert(quote_free(key_vy()));
    assert(quote_free(key_vz()));
    assert(comma_free(key_mass()));
    assert(comma_free(key_density()));
    assert(comma_free(key_radius()));
    assert(comma_free(key_x()));
    assert(comma_free(key_y()));
    assert(comma_free(key_z()));
    assert(comma_free(key_vx()));
    assert(comma_free(key_vy()));
    assert(comma_free(key_vz()));
    lemma_kv_comma_free(key_mass(), t.mass);
    lemma_kv_comma_free(key_density(), t.density);
    lemma_kv_comma_free(key_radius(), t.radius);
    lemma_kv_comma_free(key_x(), t.x);
    lemma_kv_comma_free(key_y(), t.y);
    lemma_kv_comma_free(key_z(), t.z);
    lemma_kv_comma_free(key_vx(), t.vx);
    lemma_kv_comma_free(key_vy(), t.vy);
    lemma_kv_comma_free(key_vz(), t.vz);
    assert(forall|i: int| 0 <= i < p.len() ==> comma_free(#[trigger] p[i]));
    // the wire text needs no trimming and has its braces
    assert(w[0] == 123);
    assert(w.last() == 125);
    lemma_trim_id(w);
    assert(w.len() >= 2);
    assert(w.subrange(1, w.len() - 1) =~= jn);
    // the interior splits back into the nine fields
    lemma_split_join(p);
    let segs = split_commas(jn);
    let s0 = p[0];
    let s1 = seq![32u8] + p[1];
    let s2 = seq![32u8] + p[2];
    let s3 = seq![32u8] + p[3];
    let s4 = seq![32u8] + p[4];
    let s5 = seq![32u8] + p[5];
    let s6 = seq![32u8] + p[6];
    let s7 = seq![32u8] + p[7];
    let s8 = seq![32u8] + p[8];
    assert(segs =~~= seq![s0, s1, s2, s3, s4, s5, s6, s7, s8]);
    // each segment reads back as its key and value
    lemma_parse_kv_image(Seq::empty(), key_mass(), t.mass);
    assert(Seq::<u8>::empty() + kv_text(key_mass(), t.mass) =~= s0);
    lemma_parse_kv_image(seq![32u8], key_density(), t.density);
    lemma_parse_kv_image(seq![32u8], key_radius(), t.radius);
    lemma_parse_kv_image(seq![32u8], key_x(), t.x);
    lemma_parse_kv_image(seq![32u8], key_y(), t.y);
    lemma_parse_kv_image(seq![32u8], key_z(), t.z);
    lemma_parse_kv_image(seq![32u8], key_vx(), t.vx);
    lemma_parse_kv_image(seq![32u8], key_vy(), t.vy);
    lemma_parse_kv_image(seq![32u8], key_vz(), t.vz);
    assert(parse_kv_spec(s0) == Ok::<(Seq<u8>, Seq<u8>), ParseErrorV>((key_mass(), t.mass)));
    assert(parse_kv_spec(s1) == Ok::<(Seq<u8>, Seq<u8>), ParseErrorV>((key_density(), t.density)));
    assert(parse_kv_spec(s2) == Ok::<(Seq<u8>, Seq<u8>), ParseErrorV>((key_radius(), t.radius)));
    assert(parse_kv_spec(s3) == Ok::<(Seq<u8>, Seq<u8>), ParseErrorV>((key_x(), t.x)));
    assert(parse_kv_spec(s4) == Ok::<(Seq<u8>, Seq<u8>), ParseErrorV>((key_y(), t.y)));
    assert(parse_kv_spec(s5) == Ok::<(Seq<u8>, Seq<u8>), ParseErrorV>((key_z(), t.z)));
    assert(parse_kv_spec(s6) == Ok::<(Seq<u8>, Seq<u8>), ParseErrorV>((key_vx(), t.vx)));
    assert(parse_kv_spec(s7) == Ok::<(Seq<u8>, Seq<u8>), ParseErrorV>((key_vy(), t.vy)));
    assert(parse_kv_spec(s8) == Ok::<(Seq<u8>, Seq<u8>), ParseErrorV>((key_vz(), t.vz)));
    // the keys that share a length are still distinct
    assert(key_y() != key_x()) by {
        assert(key_y()[0] == 121 && key_x()[0] == 120);
    }
    assert(key_z() != key_x()) by {
        assert(key_z()[0] == 122 && key_x()[0] == 120);
    }
    assert(key_z() != key_y()) by {
        assert(key_z()[0] == 122 && key_y()[0] == 121);
    }
    assert(key_vy() != key_vx()) by {
        assert(key_vy()[1] == 121 && key_vx()[1] == 120);
    }
    assert(key_vz() != key_vx()) by {
        assert(key_vz()[1] == 122 && key_vx()[1] == 120);
    }
    assert(key_vz() != key_vy()) by {
        assert(key_vz()[1] == 122 && key_vy()[1] == 121);
    }
    // fold the nine fields, left to right
    let a0 = zero_body_tokens();
    let a1 = BodyTokens { mass: t.mass, ..a0 };
    let a2 = BodyTokens { density: t.density, ..a1 };
    let a3 = BodyTokens { radius: t.radius, ..a2 };
    let a4 = BodyTokens { x: t.x, ..a3 };
    let a5 = BodyTokens { y: t.y, ..a4 };
    let a6 = BodyTokens { z: t.z, ..a5 };
    let a7 = BodyTokens { vx: t.vx, ..a6 };
    let a8 = BodyTokens { vy: t.vy, ..a7 };
    let a9 = BodyTokens { vz: t.vz, ..a8 };
    assert(apply_body_kv(a0, s0) == Ok::<BodyTokens, ParseErrorV>(a1));
    assert(apply_body_kv(a1, s1) == Ok::<BodyTokens, ParseErrorV>(a2));
    assert(apply_body_kv(a2, s2) == Ok::<BodyTokens, ParseErrorV>(a3));
    assert(apply_body_kv(a3, s3) == Ok::<BodyTokens, ParseErrorV>(a4));
    assert(apply_body_kv(a4, s4) == Ok::<BodyTokens, ParseErrorV>(a5));
    assert(apply_body_kv(a5, s5) == Ok::<BodyTokens, ParseErrorV>(a6));
    assert(apply_body_kv(a6, s6) == Ok::<BodyTokens, ParseErrorV>(a7));
    assert(apply_body_kv(a7, s7) == Ok::<BodyTokens, ParseErrorV>(a8));
    assert(apply_body_kv(a8, s8) == Ok::<BodyTokens, ParseErrorV>(a9));
    let g0 = seq![s0];
    let g1 = seq![s0, s1];
    let g2 = seq![s0, s1, s2];
    let g3 = seq![s0, s1, s2, s3];
    let g4 = seq![s0, s1, s2, s3, s4];
    let g5 = seq![s0, s1, s2, s3, s4, s5];
    let g6 = seq![s0, s1, s2, s3, s4, s5, s6];
    let g7 = seq![s0, s1, s2, s3, s4, s5, s6, s7];
    let g8 = seq![s0, s1, s2, s3, s4, s5, s6, s7, s8];
    assert(g0.drop_last() =~= Seq::<Seq<u8>>::empty());
    assert(g1.drop_last() =~= g0);
    assert(g2.drop_last() =~= g1);
    assert(g3.drop_last() =~= g2);
    assert(g4.drop_last() =~= g3);
    assert(g5.drop_last() =~= g4);
    assert(g6.drop_last() =~= g5);
    assert(g7.drop_last() =~= g6);
    assert(g8.drop_last() =~= g7);
    assert(apply_body_kvs(a0, Seq::empty()) == Ok::<BodyTokens, ParseErrorV>(a0));
    assert(apply_body_kvs(a0, g0) == Ok::<BodyTokens, ParseErrorV>(a1));
    assert(apply_body_kvs(a0, g1) == Ok::<BodyTokens, ParseErrorV>(a2));
    assert(apply_body_kvs(a0, g2) == Ok::<BodyTokens, ParseErrorV>(a3));
    assert(apply_body_kvs(a0, g3) == Ok::<BodyTokens, ParseErrorV>(a4));
    assert(apply_body_kvs(a0, g4) == Ok::<BodyTokens, ParseErrorV>(a5));
    assert(apply_body_kvs(a0, g5) == Ok::<BodyTokens, ParseErrorV>(a6));
    assert(apply_body_kvs(a0, g6) == Ok::<BodyTokens, ParseErrorV>(a7));
    assert(apply_body_kvs(a0, g7) == Ok::<BodyTokens, ParseErrorV>(a8));
    assert(apply_body_kvs(a0, g8) == Ok::<BodyTokens, ParseErrorV>(a9));
    assert(a9 =~~= t);
    assert(parse_body_spec(w) == apply_body_kvs(a0, segs));
}

/// The round-trip law for the simulation constants.
pub proof fn lemma_meta_round_trip(t: MetaTokens)
    requires
        wf_meta_tokens(t),
    ensures
        parse_meta_spec(meta_wire(t)) == Ok::<MetaTokens, ParseErrorV>(t),
{
    let w = meta_wire(t);
    let p = meta_kvs(t);
    let jn = join_comma_space(p);
    assert(quote_free(key_interaction_constant()));
    assert(quote_free(key_time_scaling()));
    assert(comma_free(key_interaction_constant()));
    assert(comma_free(key_time_scaling()));
    lemma_kv_comma_free(key_interaction_constant(), t.interaction_constant);
    lemma_kv_comma_free(key_time_scaling(), t.time_scaling);
    assert(forall|i: int| 0 <= i < p.len() ==> comma_free(#[trigger] p[i]));
    assert(w[0] == 123);
    assert(w.last() == 125);
    lemma_trim_id(w);
    assert(w.subrange(1, w.len() - 1) =~= jn);
    lemma_split_join(p);
    let segs = split_commas(jn);
    let s0 = p[0];
    let s1 = seq![32u8] + p[1];
    assert(segs =~~= seq![s0, s1]);
    lemma_parse_kv_image(Seq::empty(), key_interaction_constant(), t.interaction_constant);
    assert(Seq::<u8>::empty() + kv_text(key_interaction_constant(), t.interaction_constant)
        =~= s0);
    lemma_parse_kv_image(seq![32u8], key_time_scaling(), t.time_scaling);
    assert(parse_kv_spec(s0) == Ok::<(Seq<u8>, Seq<u8>), ParseErrorV>(
        (key_interaction_constant(), t.interaction_constant),
    ));
    assert(parse_kv_spec(s1) == Ok::<(Seq<u8>, Seq<u8>), ParseErrorV>(
        (key_time_scaling(), t.time_scaling),
    ));
    assert(key_time_scaling() != key_interaction_constant());
    let a0 = zero_meta_tokens();
    let a1 = MetaTokens { interaction_constant: t.interaction_constant, ..a0 };
    let a2 = MetaTokens { time_scaling: t.time_scaling, ..a1 };
    assert(apply_meta_kv(a0, s0) == Ok::<MetaTokens, ParseErrorV>(a1));
    assert(apply_meta_kv(a1, s1) == Ok::<MetaTokens, ParseErrorV>(a2));
    let g0 = seq![s0];
    let g1 = seq![s0, s1];
    assert(g0.drop_last() =~= Seq::<Seq<u8>>::empty());
    assert(g1.drop_last() =~= g0);
    assert(apply_meta_kvs(a0, Seq::empty()) == Ok::<MetaTokens, ParseErrorV>(a0));
    assert(apply_meta_kvs(a0, g0) == Ok::<MetaTokens, ParseErrorV>(a1));
    assert(apply_meta_kvs(a0, g1) == Ok::<MetaTokens, ParseErrorV>(a2));
    assert(a2 =~~= t);
    assert(parse_meta_spec(w) == apply_meta_kvs(a0, segs));
}


/// The zero token is itself a number token.
proof fn lemma_zero_token_wf()
    ensures
        is_number_token(zero_token()),
{
    assert(zero_token()[0] == 48);
    assert(forall|i: int| 0 <= i < zero_token().len() ==> is_number_byte(#[trigger] zero_token()[i]));
}

proof fn lemma_apply_body_kvs_wf(acc: BodyTokens, segs: Seq<Seq<u8>>, t: BodyTokens)
    requires
        wf_body_tokens(acc),
        apply_body_kvs(acc, segs) == Ok::<BodyTokens, ParseErrorV>(t),
    ensures
        wf_body_tokens(t),
    decreases segs.len(),
{
    if segs.len() > 0 {
        let r = apply_body_kvs(acc, segs.drop_last());
        if r is Ok {
            lemma_apply_body_kvs_wf(acc, segs.drop_last(), r->Ok_0);
        }
    }
}

proof fn lemma_apply_meta_kvs_wf(acc: MetaTokens, segs: Seq<Seq<u8>>, t: MetaTokens)
    requires
        wf_meta_tokens(acc),
        apply_meta_kvs(acc, segs) == Ok::<MetaTokens, ParseErrorV>(t),
    ensures
        wf_meta_tokens(t),
    decreases segs.len(),
{
    if segs.len() > 0 {
        let r = apply_meta_kvs(acc, segs.drop_last());
        if r is Ok {
            lemma_apply_meta_kvs_wf(acc, segs.drop_last(), r->Ok_0);
        }
    }
}

/// Whatever body the parser accepts is well-formed: every field is a
/// number token. Serializing a parsed record therefore round-trips again.
pub proof fn lemma_parse_body_wf(s: Seq<u8>, t: BodyTokens)
    requires
        parse_body_spec(s) == Ok::<BodyTokens, ParseErrorV>(t),
    ensures
        wf_body_tokens(t),
{
    lemma_zero_token_wf();
    let tr = trim(s);
    lemma_apply_body_kvs_wf(
        zero_body_tokens(),
        split_commas(tr.subrange(1, tr.len() - 1)),
        t,
    );
}

/// Whatever constants record the parser accepts is well-formed.
pub proof fn lemma_parse_meta_wf(s: Seq<u8>, t: MetaTokens)
    requires
        parse_meta_spec(s) == Ok::<MetaTokens, ParseErrorV>(t),
    ensures
        wf_meta_tokens(t),
{
    lemma_zero_token_wf();
    let tr = trim(s);
    lemma_apply_meta_kvs_wf(
        zero_meta_tokens(),
        split_commas(tr.subrange(1, tr.len() - 1)),
        t,
    );
}

} // verus!
