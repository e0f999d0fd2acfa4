//! Wire encoding of broadcast frames.
//!
//! An action travels as one frame of the form
//! `{"type":"<Variant>","payload":{...}}` with camel-cased field names.
//! The encoder below is total on actions whose textual fields are plain
//! (no quote, no backslash, no control character) and whose numeric fields
//! are decimal number texts; on any other action it reports the
//! serialization failure instead of emitting a malformed frame.

use vstd::prelude::*;
use vstd::string::StrSliceExecFns;
use vstd::string::StringExecFns;

use crate::actions::Action;
use crate::actions::CreatePlantActionPayload;
use crate::actions::CreateBaseLayerImageActionPayload;
use crate::actions::DeletePlantActionPayload;
use crate::actions::DeleteBaseLayerImageActionPayload;
use crate::actions::MovePlantActionPayload;
use crate::actions::TransformPlantActionPayload;
use crate::actions::UpdateBaseLayerImageActionPayload;

verus! {

/// The one caller-visible failure of a broadcast: the action could not be
/// encoded to its wire form.
#[derive(Debug, Clone, Copy, PartialEq, Eq, Structural)]
pub enum BroadcastError {
    SerializationFailure,
}

/// A character that may stand inside a JSON string without escaping.
pub open spec fn text_char_ok(c: char) -> bool {
    c != '"' && c != '\\' && (c as u32) >= 32
}

/// A text that may be spliced verbatim between quotes.
pub open spec fn text_ok(s: Seq<char>) -> bool {
    forall|i: int| 0 <= i < s.len() ==> text_char_ok(#[trigger] s[i])
}

/// A character of the decimal number alphabet.
pub open spec fn number_char_ok(c: char) -> bool {
    is_digit(c) || c == '-' || c == '+' || c == '.' || c == 'e' || c == 'E'
}

/// A decimal digit.
pub open spec fn is_digit(c: char) -> bool {
    '0' <= c && c <= '9'
}

/// A text that may be spliced verbatim where a JSON number stands: it is
/// non-empty, opens with a digit or a minus sign, and stays within the
/// decimal number alphabet (digits, signs, dot, exponent letters).
pub open spec fn number_text_ok(s: Seq<char>) -> bool {
    &&& s.len() > 0
    &&& (is_digit(s[0]) || s[0] == '-')
    &&& forall|i: int| 0 <= i < s.len() ==> number_char_ok(#[trigger] s[i])
}

/// The decimal digit character of a value below ten.
pub open spec fn dec_digit(n: int) -> char {
    if n == 0 {
        '0'
    } else if n == 1 {
        '1'
    } else if n == 2 {
        '2'
    } else if n == 3 {
        '3'
    } else if n == 4 {
        '4'
    } else if n == 5 {
        '5'
    } else if n == 6 {
        '6'
    } else if n == 7 {
        '7'
    } else if n == 8 {
        '8'
    } else {
        '9'
    }
}

/// The decimal rendering of a natural number, most significant digit first.
pub open spec fn dec_text(n: nat) -> Seq<char>
    decreases n,
{
    if n < 10 {
        seq![dec_digit(n as int)]
    } else {
        dec_text(n / 10).push(dec_digit((n % 10) as int))
    }
}

/// The decimal rendering of a signed integer.
pub open spec fn i32_text(n: int) -> Seq<char> {
    if n < 0 {
        seq!['-'] + dec_text((-n) as nat)
    } else {
        dec_text(n as nat)
    }
}

/// Decides [`text_ok`] for a string slice.
pub fn check_text(s: &str) -> (r: bool)
    ensures
        r == text_ok(s@),
{
    let n = s.unicode_len();
    let mut i: usize = 0;
    while i < n
        invariant
            i <= n,
            n == s@.len(),
            forall|j: int| 0 <= j < i ==> text_char_ok(#[trigger] s@[j]),
        decreases n - i,
    {
        let c = s.get_char(i);
        if c == '"' || c == '\\' || (c as u32) < 32 {
            return false;
        }
        i += 1;
    }
    true
}

/// Decides [`number_text_ok`] for a string slice.
pub fn check_number(s: &str) -> (r: bool)
    ensures
        r == number_text_ok(s@),
{
    let n = s.unicode_len();
    if n == 0 {
        return false;
    }
    let first = s.get_char(0);
    if !(first == '-' || ('0' <= first && first <= '9')) {
        return false;
    }
    let mut i: usize = 0;
    while i < n
        invariant
            i <= n,
            n == s@.len(),
            forall|j: int| 0 <= j < i ==> number_char_ok(#[trigger] s@[j]),
        decreases n - i,
    {
        let c = s.get_char(i);
        if !(('0' <= c && c <= '9') || c == '-' || c == '+' || c == '.' || c == 'e' || c == 'E') {
            return false;
        }
        i += 1;
    }
    true
}

/// The one-character string of a decimal digit.
fn digit_str(d: u32) -> (r: &'static str)
    requires
        d < 10,
    ensures
        r@ == seq![dec_digit(d as int)],
{
    if d == 0 {
        proof {
            reveal_strlit("0");
            assert("0"@ =~= seq![dec_digit(0int)]);
        }
        "0"
    } else if d == 1 {
        proof {
            reveal_strlit("1");
            assert("1"@ =~= seq![dec_digit(1int)]);
        }
        "1"
    } else if d == 2 {
        proof {
            reveal_strlit("2");
            assert("2"@ =~= seq![dec_digit(2int)]);
        }
        "2"
    } else if d == 3 {
        proof {
            reveal_strlit("3");
            assert("3"@ =~= seq![dec_digit(3int)]);
        }
        "3"
    } else if d == 4 {
        proof {
            reveal_strlit("4");
            assert("4"@ =~= seq![dec_digit(4int)]);
        }
        "4"
    } else if d == 5 {
        proof {
            reveal_strlit("5");
            assert("5"@ =~= seq![dec_digit(5int)]);
        }
        "5"
    } else if d == 6 {
        proof {
            reveal_strlit("6");
            assert("6"@ =~= seq![dec_digit(6int)]);
        }
        "6"
    } else if d == 7 {
        proof {
            reveal_strlit("7");
            assert("7"@ =~= seq![dec_digit(7int)]);
        }
        "7"
    } else if d == 8 {
        proof {
            reveal_strlit("8");
            assert("8"@ =~= seq![dec_digit(8int)]);
        }
        "8"
    } else {
        proof {
            reveal_strlit("9");
            assert("9"@ =~= seq![dec_digit(9int)]);
        }
        "9"
    }
}

/// Appends the decimal rendering of `n` to `out`.
fn push_digits(out: &mut String, n: u32)
    ensures
        final(out)@ == old(out)@ + dec_text(n as nat),
    decreases n,
{
    if n < 10 {
        out.append(digit_str(n));
        proof {
            assert(out@ =~= old(out)@ + dec_text(n as nat));
        }
    } else {
        push_digits(out, n / 10);
        out.append(digit_str(n % 10));
        proof {
            assert(out@ =~= old(out)@ + dec_text(n as nat));
        }
    }
}

/// Appends the decimal rendering of a signed integer to `out`.
fn push_i32(out: &mut String, n: i32)
    ensures
        final(out)@ == old(out)@ + i32_text(n as int),
{
    if n >= 0 {
        push_digits(out, n as u32);
    } else {
        out.append("-");
        let wide: i64 = n as i64;
        let mag: u32 = (-wide) as u32;
        push_digits(out, mag);
        proof {
            reveal_strlit("-");
            assert("-"@ =~= seq!['-']);
            assert(out@ =~= old(out)@ + i32_text(n as int));
        }
    }
}

/// Wire text of a create-planting frame.
pub open spec fn wire_create_planting(p: CreatePlantActionPayload) -> Seq<char> {
    "{\"type\":\"CreatePlanting\",\"payload\":{\"userId\":\""@ + p.user_id@ + "\",\"id\":\""@
        + p.id@ + "\",\"layerId\":"@ + i32_text(p.layer_id as int) + ",\"plantId\":"@ + i32_text(
        p.plant_id as int,
    ) + ",\"x\":"@ + i32_text(p.x as int) + ",\"y\":"@ + i32_text(p.y as int) + ",\"width\":"@
        + i32_text(p.width as int) + ",\"height\":"@ + i32_text(p.height as int) + ",\"rotation\":"@
        + p.rotation@ + ",\"scaleX\":"@ + p.scale_x@ + ",\"scaleY\":"@ + p.scale_y@ + "}}"@
}

/// Wire text of a delete-planting frame.
pub open spec fn wire_delete_planting(p: DeletePlantActionPayload) -> Seq<char> {
    "{\"type\":\"DeletePlanting\",\"payload\":{\"userId\":\""@ + p.user_id@ + "\",\"id\":\""@
        + p.id@ + "\"}}"@
}

/// Wire text of a move-planting frame.
pub open spec fn wire_move_planting(p: MovePlantActionPayload) -> Seq<char> {
    "{\"type\":\"MovePlanting\",\"payload\":{\"userId\":\""@ + p.user_id@ + "\",\"id\":\""@ + p.id@
        + "\",\"x\":"@ + i32_text(p.x as int) + ",\"y\":"@ + i32_text(p.y as int) + "}}"@
}

/// Wire text of a transform-planting frame.
pub open spec fn wire_transform_planting(p: TransformPlantActionPayload) -> Seq<char> {
    "{\"type\":\"TransformPlanting\",\"payload\":{\"userId\":\""@ + p.user_id@ + "\",\"id\":\""@
        + p.id@ + "\",\"x\":"@ + i32_text(p.x as int) + ",\"y\":"@ + i32_text(p.y as int)
        + ",\"rotation\":"@ + p.rotation@ + ",\"scaleX\":"@ + p.scale_x@ + ",\"scaleY\":"@
        + p.scale_y@ + "}}"@
}

/// Wire text of a create-base-layer-image frame.
pub open spec fn wire_create_base_layer_image(p: CreateBaseLayerImageActionPayload) -> Seq<char> {
    "{\"type\":\"CreateBaseLayerImage\",\"payload\":{\"userId\":\""@ + p.user_id@ + "\",\"id\":\""@
        + p.id@ + "\",\"layerId\":"@ + i32_text(p.layer_id as int) + ",\"rotation\":"@ + p.rotation@
        + ",\"scale\":"@ + p.scale@ + ",\"path\":\""@ + p.path@ + "\"}}"@
}

/// Wire text of an update-base-layer-image frame.
pub open spec fn wire_update_base_layer_image(p: UpdateBaseLayerImageActionPayload) -> Seq<char> {
    "{\"type\":\"UpdateBaseLayerImage\",\"payload\":{\"userId\":\""@ + p.user_id@ + "\",\"id\":\""@
        + p.id@ + "\",\"layerId\":"@ + i32_text(p.layer_id as int) + ",\"rotation\":"@ + p.rotation@
        + ",\"scale\":"@ + p.scale@ + ",\"path\":\""@ + p.path@ + "\"}}"@
}

/// Wire text of a delete-base-layer-image frame.
pub open spec fn wire_delete_base_layer_image(p: DeleteBaseLayerImageActionPayload) -> Seq<char> {
    "{\"type\":\"DeleteBaseLayerImage\",\"payload\":{\"userId\":\""@ + p.user_id@ + "\",\"id\":\""@
        + p.id@ + "\"}}"@
}

/// The wire text of an action frame: a discriminant tag naming the variant
/// and a nested payload object with camel-cased field names.
pub open spec fn action_wire(a: Action) -> Seq<char> {
    match a {
        Action::CreatePlanting(p) => wire_create_planting(p),
        Action::DeletePlanting(p) => wire_delete_planting(p),
        Action::MovePlanting(p) => wire_move_planting(p),
        Action::TransformPlanting(p) => wire_transform_planting(p),
        Action::CreateBaseLayerImage(p) => wire_create_base_layer_image(p),
        Action::UpdateBaseLayerImage(p) => wire_update_base_layer_image(p),
        Action::DeleteBaseLayerImage(p) => wire_delete_base_layer_image(p),
    }
}

/// Whether an action can be encoded: every textual field is plain and every
/// numeric field is a decimal number text.
pub open spec fn action_serializable(a: Action) -> bool {
    match a {
        Action::CreatePlanting(p) => text_ok(p.user_id@) && text_ok(p.id@) && number_text_ok(
            p.rotation@,
        ) && number_text_ok(p.scale_x@) && number_text_ok(p.scale_y@),
        Action::DeletePlanting(p) => text_ok(p.user_id@) && text_ok(p.id@),
        Action::MovePlanting(p) => text_ok(p.user_id@) && text_ok(p.id@),
        Action::TransformPlanting(p) => text_ok(p.user_id@) && text_ok(p.id@) && number_text_ok(
            p.rotation@,
        ) && number_text_ok(p.scale_x@) && number_text_ok(p.scale_y@),
        Action::CreateBaseLayerImage(p) => text_ok(p.user_id@) && text_ok(p.id@) && text_ok(p.path@)
            && number_text_ok(p.rotation@) && number_text_ok(p.scale@),
        Action::UpdateBaseLayerImage(p) => text_ok(p.user_id@) && text_ok(p.id@) && text_ok(p.path@)
            && number_text_ok(p.rotation@) && number_text_ok(p.scale@),
        Action::DeleteBaseLayerImage(p) => text_ok(p.user_id@) && text_ok(p.id@),
    }
}

fn encode_create_planting(p: &CreatePlantActionPayload) -> (r: Result<String, BroadcastError>)
    ensures
        r is Ok <==> action_serializable(Action::CreatePlanting(*p)),
        r is Ok ==> r->Ok_0@ == wire_create_planting(*p),
        r is Err ==> r == Err::<String, BroadcastError>(BroadcastError::SerializationFailure),
{
    if !(check_text(p.user_id.as_str()) && check_text(p.id.as_str()) && check_number(
        p.rotation.as_str(),
    ) && check_number(p.scale_x.as_str()) && check_number(p.scale_y.as_str())) {
        return Err(BroadcastError::SerializationFailure);
    }
    let mut out = String::new();
    out.append("{\"type\":\"CreatePlanting\",\"payload\":{\"userId\":\"");
    out.append(p.user_id.as_str());
    out.append("\",\"id\":\"");
    out.append(p.id.as_str());
    out.append("\",\"layerId\":");
    push_i32(&mut out, p.layer_id);
    out.append(",\"plantId\":");
    push_i32(&mut out, p.plant_id);
    out.append(",\"x\":");
    push_i32(&mut out, p.x);
    out.append(",\"y\":");
    push_i32(&mut out, p.y);
    out.append(",\"width\":");
    push_i32(&mut out, p.width);
    out.append(",\"height\":");
    push_i32(&mut out, p.height);
    out.append(",\"rotation\":");
    out.append(p.rotation.as_str());
    out.append(",\"scaleX\":");
    out.append(p.scale_x.as_str());
    out.append(",\"scaleY\":");
    out.append(p.scale_y.as_str());
    out.append("}}");
    proof {
        assert(out@ =~= wire_create_planting(*p));
    }
    Ok(out)
}

fn encode_delete_planting(p: &DeletePlantActionPayload) -> (r: Result<String, BroadcastError>)
    ensures
        r is Ok <==> action_serializable(Action::DeletePlanting(*p)),
        r is Ok ==> r->Ok_0@ == wire_delete_planting(*p),
        r is Err ==> r == Err::<String, BroadcastError>(BroadcastError::SerializationFailure),
{
    if !(check_text(p.user_id.as_str()) && check_text(p.id.as_str())) {
        return Err(BroadcastError::SerializationFailure);
    }
    let mut out = String::new();
    out.append("{\"type\":\"DeletePlanting\",\"payload\":{\"userId\":\"");
    out.append(p.user_id.as_str());
    out.append("\",\"id\":\"");
    out.append(p.id.as_str());
    out.append("\"}}");
    proof {
        assert(out@ =~= wire_delete_planting(*p));
    }
    Ok(out)
}

fn encode_move_planting(p: &MovePlantActionPayload) -> (r: Result<String, BroadcastError>)
    ensures
        r is Ok <==> action_serializable(Action::MovePlanting(*p)),
        r is Ok ==> r->Ok_0@ == wire_move_planting(*p),
        r is Err ==> r == Err::<String, BroadcastError>(BroadcastError::SerializationFailure),
{
    if !(check_text(p.user_id.as_str()) && check_text(p.id.as_str())) {
        return Err(BroadcastError::SerializationFailure);
    }
    let mut out = String::new();
    out.append("{\"type\":\"MovePlanting\",\"payload\":{\"userId\":\"");
    out.append(p.user_id.as_str());
    out.append("\",\"id\":\"");
    out.append(p.id.as_str());
    out.append("\",\"x\":");
    push_i32(&mut out, p.x);
    out.append(",\"y\":");
    push_i32(&mut out, p.y);
    out.append("}}");
    proof {
        assert(out@ =~= wire_move_planting(*p));
    }
    Ok(out)
}

fn encode_transform_planting(p: &TransformPlantActionPayload) -> (r: Result<
    String,
    BroadcastError,
>)
    ensures
        r is Ok <==> action_serializable(Action::TransformPlanting(*p)),
        r is Ok ==> r->Ok_0@ == wire_transform_planting(*p),
        r is Err ==> r == Err::<String, BroadcastError>(BroadcastError::SerializationFailure),
{
    if !(check_text(p.user_id.as_str()) && check_text(p.id.as_str()) && check_number(
        p.rotation.as_str(),
    ) && check_number(p.scale_x.as_str()) && check_number(p.scale_y.as_str())) {
        return Err(BroadcastError::SerializationFailure);
    }
    let mut out = String::new();
    out.append("{\"type\":\"TransformPlanting\",\"payload\":{\"userId\":\"");
    out.append(p.user_id.as_str());
    out.append("\",\"id\":\"");
    out.append(p.id.as_str());
    out.append("\",\"x\":");
    push_i32(&mut out, p.x);
    out.append(",\"y\":");
    push_i32(&mut out, p.y);
    out.append(",\"rotation\":");
    out.append(p.rotation.as_str());
    out.append(",\"scaleX\":");
    out.append(p.scale_x.as_str());
    out.append(",\"scaleY\":");
    out.append(p.scale_y.as_str());
    out.append("}}");
    proof {
        assert(out@ =~= wire_transform_planting(*p));
    }
    Ok(out)
}

fn encode_create_base_layer_image(p: &CreateBaseLayerImageActionPayload) -> (r: Result<
    String,
    BroadcastError,
>)
    ensures
        r is Ok <==> action_serializable(Action::CreateBaseLayerImage(*p)),
        r is Ok ==> r->Ok_0@ == wire_create_base_layer_image(*p),
        r is Err ==> r == Err::<String, BroadcastError>(BroadcastError::SerializationFailure),
{
    if !(check_text(p.user_id.as_str()) && check_text(p.id.as_str()) && check_text(p.path.as_str())
        && check_number(p.rotation.as_str()) && check_number(p.scale.as_str())) {
        return Err(BroadcastError::SerializationFailure);
    }
    let mut out = String::new();
    out.append("{\"type\":\"CreateBaseLayerImage\",\"payload\":{\"userId\":\"");
    out.append(p.user_id.as_str());
    out.append("\",\"id\":\"");
    out.append(p.id.as_str());
    out.append("\",\"layerId\":");
    push_i32(&mut out, p.layer_id);
    out.append(",\"rotation\":");
    out.append(p.rotation.as_str());
    out.append(",\"scale\":");
    out.append(p.scale.as_str());
    out.append(",\"path\":\"");
    out.append(p.path.as_str());
    out.append("\"}}");
    proof {
        assert(out@ =~= wire_create_base_layer_image(*p));
    }
    Ok(out)
}

fn encode_update_base_layer_image(p: &UpdateBaseLayerImageActionPayload) -> (r: Result<
    String,
    BroadcastError,
>)
    ensures
        r is Ok <==> action_serializable(Action::UpdateBaseLayerImage(*p)),
        r is Ok ==> r->Ok_0@ == wire_update_base_layer_image(*p),
        r is Err ==> r == Err::<String, BroadcastError>(BroadcastError::SerializationFailure),
{
    if !(check_text(p.user_id.as_str()) && check_text(p.id.as_str()) && check_text(p.path.as_str())
        && check_number(p.rotation.as_str()) && check_number(p.scale.as_str())) {
        return Err(BroadcastError::SerializationFailure);
    }
    let mut out = String::new();
    out.append("{\"type\":\"UpdateBaseLayerImage\",\"payload\":{\"userId\":\"");
    out.append(p.user_id.as_str());
    out.append("\",\"id\":\"");
    out.append(p.id.as_str());
    out.append("\",\"layerId\":");
    push_i32(&mut out, p.layer_id);
    out.append(",\"rotation\":");
    out.append(p.rotation.as_str());
    out.append(",\"scale\":");
    out.append(p.scale.as_str());
    out.append(",\"path\":\"");
    out.append(p.path.as_str());
    out.append("\"}}");
    proof {
        assert(out@ =~= wire_update_base_layer_image(*p));
    }
    Ok(out)
}

fn encode_delete_base_layer_image(p: &DeleteBaseLayerImageActionPayload) -> (r: Result<
    String,
    BroadcastError,
>)
    ensures
        r is Ok <==> action_serializable(Action::DeleteBaseLayerImage(*p)),
        r is Ok ==> r->Ok_0@ == wire_delete_base_layer_image(*p),
        r is Err ==> r == Err::<String, BroadcastError>(BroadcastError::SerializationFailure),
{
    if !(check_text(p.user_id.as_str()) && check_text(p.id.as_str())) {
        return Err(BroadcastError::SerializationFailure);
    }
    let mut out = String::new();
    out.append("{\"type\":\"DeleteBaseLayerImage\",\"payload\":{\"userId\":\"");
    out.append(p.user_id.as_str());
    out.append("\",\"id\":\"");
    out.append(p.id.as_str());
    out.append("\"}}");
    proof {
        assert(out@ =~= wire_delete_base_layer_image(*p));
    }
    Ok(out)
}

/// Encodes an action to its wire frame exactly once per broadcast.
///
/// Succeeds if and only if the action is [`action_serializable`]; the frame
/// returned is exactly [`action_wire`].
pub fn serialize_action(a: &Action) -> (r: Result<String, BroadcastError>)
    ensures
        r is Ok <==> action_serializable(*a),
        r is Ok ==> r->Ok_0@ == action_wire(*a),
        r is Err ==> r == Err::<String, BroadcastError>(BroadcastError::SerializationFailure),
{
    match a {
        Action::CreatePlanting(p) => encode_create_planting(p),
        Action::DeletePlanting(p) => encode_delete_planting(p),
        Action::MovePlanting(p) => encode_move_planting(p),
        Action::TransformPlanting(p) => encode_transform_planting(p),
        Action::CreateBaseLayerImage(p) => encode_create_base_layer_image(p),
        Action::UpdateBaseLayerImage(p) => encode_update_base_layer_image(p),
        Action::DeleteBaseLayerImage(p) => encode_delete_base_layer_image(p),
    }
}

/// The acknowledgement frame pushed once, immediately after a subscription
/// is accepted, before any action frame.
pub fn connected_message() -> (r: String)
    ensures
        r@ == "connected"@,
{
    String::from_str("connected")
}

/// The contentless liveness-probe frame; consumers are expected to ignore
/// it.
pub fn heartbeat_message() -> (r: String)
    ensures
        r@ == "ping"@,
{
    String::from_str("ping")
}

} // verus!
