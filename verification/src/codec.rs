//! The wire codec: a message as a JSON document, and a document as a frame
//! behind its length.

use crate::error::{AppError, AppErrorView};
use crate::json::{
    json_document, json_text, lemma_list_view, lemma_table_view, read_json, write_json, Json,
    JsonTree,
};
use crate::frame::{
    be_value, frame, frame_body, frame_length, frame_of, is_frame, lemma_frame_round_trip, unframe,
};
use crate::message::{Message, MessageType};
use vstd::prelude::*;
use vstd::string::*;
use vstd::utf8::encode_utf8;

verus! {

/// An optional author as JSON: the name, or null.
pub open spec fn name_tree(name: Option<Seq<char>>) -> JsonTree {
    match name {
        Some(n) => JsonTree::Text(n),
        None => JsonTree::Null,
    }
}

/// Contents as JSON: the list of the bytes as numbers.
pub open spec fn bytes_tree(data: Seq<u8>) -> JsonTree {
    JsonTree::List(Seq::new(data.len(), |i: int| JsonTree::Number(Some(data[i] as u64))))
}

/// A message as JSON: an object with one member, named after the kind of
/// message, which holds the fields in order (a registration: the account
/// name alone).
pub open spec fn message_tree(message: Message) -> JsonTree {
    match message {
        Message::Text(author, text) => JsonTree::Table(
            seq![("Text"@, JsonTree::List(seq![name_tree(author), JsonTree::Text(text)]))],
        ),
        Message::Image(author, data) => JsonTree::Table(
            seq![("Image"@, JsonTree::List(seq![name_tree(author), bytes_tree(data)]))],
        ),
        Message::File(author, name, data) => JsonTree::Table(
            seq![
                (
                    "File"@,
                    JsonTree::List(seq![name_tree(author), JsonTree::Text(name), bytes_tree(data)]),
                ),
            ],
        ),
        Message::Register(account) => JsonTree::Table(
            seq![("Register"@, JsonTree::Text(account))],
        ),
    }
}

/// The optional author that a JSON value stands for: a name, none for
/// null, and nothing for any other value.
pub open spec fn tree_name(tree: JsonTree) -> Option<Option<Seq<char>>> {
    match tree {
        JsonTree::Null => Some(None),
        JsonTree::Text(n) => Some(Some(n)),
        _ => None,
    }
}

/// Whether a JSON value is a whole number from 0 to 255.
pub open spec fn is_byte(tree: JsonTree) -> bool {
    tree matches JsonTree::Number(Some(n)) && n <= 255
}

/// The contents that a JSON value stands for: a list of numbers from 0 to
/// 255 gives those bytes, any other value nothing.
pub open spec fn tree_bytes(tree: JsonTree) -> Option<Seq<u8>> {
    match tree {
        JsonTree::List(items) => if forall|i: int| 0 <= i < items.len() ==> is_byte(#[trigger] items[i]) {
            Some(Seq::new(items.len(), |i: int| items[i]->Number_0->Some_0 as u8))
        } else {
            None
        },
        _ => None,
    }
}

/// The text that a JSON value stands for, where it is a string.
pub open spec fn tree_text(tree: JsonTree) -> Option<Seq<char>> {
    match tree {
        JsonTree::Text(s) => Some(s),
        _ => None,
    }
}

/// The fields that a JSON value stands for under a kind's name: a list of
/// exactly that kind's fields, each of its own shape (a registration: one
/// string). Another name, another length or another shape gives nothing.
pub open spec fn payload_message(tag: Seq<char>, payload: JsonTree) -> Option<Message> {
    if tag == "Text"@ {
        match payload {
            JsonTree::List(items) => if items.len() == 2 && tree_name(items[0]).is_some()
                && tree_text(items[1]).is_some() {
                Some(Message::Text(tree_name(items[0]).unwrap(), tree_text(items[1]).unwrap()))
            } else {
                None
            },
            _ => None,
        }
    } else if tag == "Image"@ {
        match payload {
            JsonTree::List(items) => if items.len() == 2 && tree_name(items[0]).is_some()
                && tree_bytes(items[1]).is_some() {
                Some(Message::Image(tree_name(items[0]).unwrap(), tree_bytes(items[1]).unwrap()))
            } else {
                None
            },
            _ => None,
        }
    } else if tag == "File"@ {
        match payload {
            JsonTree::List(items) => if items.len() == 3 && tree_name(items[0]).is_some()
                && tree_text(items[1]).is_some() && tree_bytes(items[2]).is_some() {
                Some(
                    Message::File(
                        tree_name(items[0]).unwrap(),
                        tree_text(items[1]).unwrap(),
                        tree_bytes(items[2]).unwrap(),
                    ),
                )
            } else {
                None
            },
            _ => None,
        }
    } else if tag == "Register"@ {
        match tree_text(payload) {
            Some(account) => Some(Message::Register(account)),
            None => None,
        }
    } else {
        None
    }
}

/// The message that a JSON value stands for: an object with exactly one
/// member, whose name is a kind of message and whose value holds that
/// kind's fields. Every other value stands for none.
pub open spec fn tree_message(tree: JsonTree) -> Option<Message> {
    match tree {
        JsonTree::Table(members) => if members.len() == 1 {
            payload_message(members[0].0, members[0].1)
        } else {
            None
        },
        _ => None,
    }
}

/// The reason given for a JSON document that is no message.
pub open spec fn not_a_message() -> Seq<char> {
    "not a message of a known kind"@
}

/// An optional author as JSON.
fn name_json(name: &Option<String>) -> (out: Json)
    ensures
        out@ == name_tree(crate::message::name_view(*name)),
{
    match name {
        Some(n) => Json::Text(n.clone()),
        None => Json::Null,
    }
}

/// Contents as JSON.
fn bytes_json(data: &Vec<u8>) -> (out: Json)
    ensures
        out@ == bytes_tree(data@),
{
    let mut items: Vec<Json> = Vec::new();
    let mut i: usize = 0;
    while i < data.len()
        invariant
            i <= data.len(),
            items@.len() == i,
            forall|k: int| 0 <= k < i ==> (#[trigger] items@[k])@ == JsonTree::Number(Some(data@[k] as u64)),
        decreases data.len() - i,
    {
        items.push(Json::Number(Some(data[i] as u64)));
        i += 1;
    }
    let out = Json::List(items);
    assert(out@ == bytes_tree(data@)) by {
        assert(out@->List_0 =~= bytes_tree(data@)->List_0);
    }
    out
}

/// A JSON object with one member.
fn tagged(tag: &str, payload: Json) -> (out: Json)
    ensures
        out@ == JsonTree::Table(seq![(tag@, payload@)]),
{
    let mut members: Vec<(String, Json)> = Vec::new();
    members.push((String::from_str(tag), payload));
    let out = Json::Table(members);
    assert(out@ == JsonTree::Table(seq![(tag@, payload@)])) by {
        assert(out@->Table_0 =~= seq![(tag@, payload@)]);
    }
    out
}

/// A JSON list of two.
fn pair(first: Json, second: Json) -> (out: Json)
    ensures
        out@ == JsonTree::List(seq![first@, second@]),
{
    let mut items: Vec<Json> = Vec::new();
    items.push(first);
    items.push(second);
    let out = Json::List(items);
    assert(out@ == JsonTree::List(seq![first@, second@])) by {
        assert(out@->List_0 =~= seq![first@, second@]);
    }
    out
}

/// A JSON list of three.
fn triple(first: Json, second: Json, third: Json) -> (out: Json)
    ensures
        out@ == JsonTree::List(seq![first@, second@, third@]),
{
    let mut items: Vec<Json> = Vec::new();
    items.push(first);
    items.push(second);
    items.push(third);
    let out = Json::List(items);
    assert(out@ == JsonTree::List(seq![first@, second@, third@])) by {
        assert(out@->List_0 =~= seq![first@, second@, third@]);
    }
    out
}

impl MessageType {
    /// The message as a JSON tree.
    pub fn to_json(&self) -> (out: Json)
        ensures
            out@ == message_tree(self@),
    {
        match self {
            MessageType::Text(author, text) => tagged(
                "Text",
                pair(name_json(author), Json::Text(text.clone())),
            ),
            MessageType::Image(author, data) => tagged(
                "Image",
                pair(name_json(author), bytes_json(data)),
            ),
            MessageType::File(author, name, data) => tagged(
                "File",
                triple(name_json(author), Json::Text(name.clone()), bytes_json(data)),
            ),
            MessageType::Register(account) => tagged("Register", Json::Text(account.clone())),
        }
    }
}

/// The four kinds' names differ from one another.
proof fn lemma_tags_differ()
    ensures
        "Text"@ != "Image"@,
        "Text"@ != "File"@,
        "Text"@ != "Register"@,
        "Image"@ != "File"@,
        "Image"@ != "Register"@,
        "File"@ != "Register"@,
{
    reveal_strlit("Text");
    reveal_strlit("Image");
    reveal_strlit("File");
    reveal_strlit("Register");
    assert("Text"@.len() == 4 && "Image"@.len() == 5 && "File"@.len() == 4 && "Register"@.len()
        == 8);
    assert("Text"@[0] == 'T' && "File"@[0] == 'F');
}

/// Reading back an author gives the author.
proof fn lemma_name_round_trip(name: Option<Seq<char>>)
    ensures
        tree_name(name_tree(name)) == Some(name),
{
}

/// Reading back contents gives the contents.
proof fn lemma_bytes_round_trip(data: Seq<u8>)
    ensures
        tree_bytes(bytes_tree(data)) == Some(data),
{
    let items = bytes_tree(data)->List_0;
    assert forall|i: int| 0 <= i < items.len() implies is_byte(#[trigger] items[i]) by {}
    assert(tree_bytes(bytes_tree(data)).unwrap() =~= data);
}

/// Reading back the tree that a message is written as gives the message.
pub proof fn lemma_tree_round_trip(message: Message)
    ensures
        tree_message(message_tree(message)) == Some(message),
{
    lemma_tags_differ();
    let members = message_tree(message)->Table_0;
    assert(members.len() == 1);
    let payload = members[0].1;
    match message {
        Message::Text(author, text) => {
            lemma_name_round_trip(author);
            let items = payload->List_0;
            assert(items.len() == 2 && items[0] == name_tree(author) && items[1]
                == JsonTree::Text(text));
        },
        Message::Image(author, data) => {
            lemma_name_round_trip(author);
            lemma_bytes_round_trip(data);
            let items = payload->List_0;
            assert(items.len() == 2 && items[0] == name_tree(author) && items[1] == bytes_tree(
                data,
            ));
        },
        Message::File(author, name, data) => {
            lemma_name_round_trip(author);
            lemma_bytes_round_trip(data);
            let items = payload->List_0;
            assert(items.len() == 3 && items[0] == name_tree(author) && items[1]
                == JsonTree::Text(name) && items[2] == bytes_tree(data));
        },
        Message::Register(account) => {},
    }
}

/// A JSON list of bytes is the list that its bytes are written as.
proof fn lemma_bytes_unique(tree: JsonTree)
    requires
        tree_bytes(tree).is_some(),
    ensures
        tree == bytes_tree(tree_bytes(tree).unwrap()),
{
    let items = tree->List_0;
    let again = bytes_tree(tree_bytes(tree).unwrap())->List_0;
    assert forall|i: int| 0 <= i < items.len() implies items[i] == again[i] by {
        assert(is_byte(items[i]));
    }
    assert(items =~= again);
}

/// A tree stands for one message at most, and only a message's own tree
/// stands for it.
pub proof fn lemma_tree_unique(tree: JsonTree, message: Message)
    requires
        tree_message(tree) == Some(message),
    ensures
        tree == message_tree(message),
{
    lemma_tags_differ();
    let members = tree->Table_0;
    let tag = members[0].0;
    let payload = members[0].1;
    assert(members =~= seq![(tag, payload)]);
    match message {
        Message::Text(author, text) => {
            let items = payload->List_0;
            assert(items =~= seq![name_tree(author), JsonTree::Text(text)]);
        },
        Message::Image(author, data) => {
            let items = payload->List_0;
            lemma_bytes_unique(items[1]);
            assert(items =~= seq![name_tree(author), bytes_tree(data)]);
        },
        Message::File(author, name, data) => {
            let items = payload->List_0;
            lemma_bytes_unique(items[2]);
            assert(items =~= seq![name_tree(author), JsonTree::Text(name), bytes_tree(data)]);
        },
        Message::Register(account) => {},
    }
}

/// The tree of a message can be written as it stands.
pub proof fn lemma_message_tree_writable(message: Message)
    ensures
        message_tree(message).writable(),
{
    reveal_with_fuel(JsonTree::writable, 4);
}

/// Whether a string is the given word.
fn is_word(s: &String, word: &str) -> (same: bool)
    ensures
        same == (s@ == word@),
{
    let w = String::from_str(word);
    *s == w
}

/// The optional author that a JSON value stands for.
fn json_name(tree: &Json) -> (out: Option<Option<String>>)
    ensures
        match out {
            Some(name) => tree_name(tree@) == Some(crate::message::name_view(name)),
            None => tree_name(tree@).is_none(),
        },
{
    match tree {
        Json::Null => Some(None),
        Json::Text(n) => Some(Some(n.clone())),
        _ => None,
    }
}

/// The text that a JSON value stands for.
fn json_string(tree: &Json) -> (out: Option<String>)
    ensures
        match out {
            Some(text) => tree_text(tree@) == Some(text@),
            None => tree_text(tree@).is_none(),
        },
{
    match tree {
        Json::Text(s) => Some(s.clone()),
        _ => None,
    }
}

/// The contents that a JSON value stands for.
fn json_bytes(tree: &Json) -> (out: Option<Vec<u8>>)
    ensures
        match out {
            Some(data) => tree_bytes(tree@) == Some(data@),
            None => tree_bytes(tree@).is_none(),
        },
{
    match tree {
        Json::List(items) => {
            let ghost trees = Json::items_view(items@);
            proof {
                lemma_list_view(*items);
                assert(*tree == Json::List(*items));
                assert(tree@ == JsonTree::List(trees));
            }
            let mut data: Vec<u8> = Vec::new();
            let mut i: usize = 0;
            while i < items.len()
                invariant
                    i <= items.len(),
                    tree@ == JsonTree::List(trees),
                    trees.len() == items@.len(),
                    forall|k: int| 0 <= k < items@.len() ==> trees[k] == (#[trigger] items@[k])@,
                    data@.len() == i,
                    forall|k: int| 0 <= k < i ==> is_byte(#[trigger] trees[k]),
                    forall|k: int|
                        0 <= k < i ==> (#[trigger] data@[k]) == trees[k]->Number_0->Some_0 as u8,
                decreases items.len() - i,
            {
                match &items[i] {
                    Json::Number(Some(n)) => {
                        if *n <= 255 {
                            data.push(*n as u8);
                        } else {
                            assert(!is_byte(trees[i as int]));
                            return None;
                        }
                    },
                    _ => {
                        assert(!is_byte(trees[i as int]));
                        return None;
                    },
                }
                i += 1;
            }
            assert(tree_bytes(tree@).unwrap() =~= data@);
            Some(data)
        },
        _ => None,
    }
}

/// The reason given for a JSON document that is no message.
fn shape_error() -> (error: AppError)
    ensures
        error@ == AppErrorView::Serialization(not_a_message()),
{
    AppError::Serialization(String::from_str("not a message of a known kind"))
}

/// The fields that a JSON value stands for under a kind's name.
fn payload_from_json(tag: &String, payload: &Json) -> (out: Option<MessageType>)
    ensures
        match out {
            Some(message) => payload_message(tag@, payload@) == Some(message@),
            None => payload_message(tag@, payload@).is_none(),
        },
{
    proof {
        lemma_tags_differ();
    }
    if is_word(tag, "Register") {
        return match json_string(payload) {
            Some(account) => Some(MessageType::Register(account)),
            None => None,
        };
    }
    let text = is_word(tag, "Text");
    let image = is_word(tag, "Image");
    let file = is_word(tag, "File");
    match payload {
        Json::List(items) => {
            proof {
                lemma_list_view(*items);
            }
            if (text || image) && items.len() == 2 {
                match json_name(&items[0]) {
                    Some(author) => {
                        if text {
                            match json_string(&items[1]) {
                                Some(body) => Some(MessageType::Text(author, body)),
                                None => None,
                            }
                        } else {
                            match json_bytes(&items[1]) {
                                Some(data) => Some(MessageType::Image(author, data)),
                                None => None,
                            }
                        }
                    },
                    None => None,
                }
            } else if file && items.len() == 3 {
                match (json_name(&items[0]), json_string(&items[1]), json_bytes(&items[2])) {
                    (Some(author), Some(name), Some(data)) => Some(
                        MessageType::File(author, name, data),
                    ),
                    _ => None,
                }
            } else {
                None
            }
        },
        _ => None,
    }
}

impl MessageType {
    /// The message that a JSON tree stands for, or the error that it stands
    /// for none.
    pub fn from_json(tree: &Json) -> (out: Result<MessageType, AppError>)
        ensures
            match out {
                Ok(message) => tree_message(tree@) == Some(message@),
                Err(error) => tree_message(tree@).is_none() && error@
                    == AppErrorView::Serialization(not_a_message()),
            },
    {
        match tree {
            Json::Table(members) => {
                proof {
                    lemma_table_view(*members);
                }
                if members.len() != 1 {
                    return Err(shape_error());
                }
                match payload_from_json(&members[0].0, &members[0].1) {
                    Some(message) => Ok(message),
                    None => Err(shape_error()),
                }
            },
            _ => Err(shape_error()),
        }
    }
}

/// The message that a text stands for: the text is a JSON document, and
/// the document stands for a message.
pub open spec fn document_message(bytes: Seq<u8>) -> Option<Message> {
    match json_document(bytes) {
        Some(tree) => tree_message(tree),
        None => None,
    }
}

/// The body of a message's frame: its JSON text in UTF-8.
pub open spec fn message_body(message: Message) -> Seq<u8> {
    encode_utf8(json_text(message_tree(message)))
}

/// A message as it travels: the frame of its body.
pub open spec fn encoded(message: Message) -> Seq<u8> {
    frame_of(message_body(message))
}

/// The message that travelled as the given bytes: they are one whole frame,
/// and its body stands for a message.
pub open spec fn decoded(bytes: Seq<u8>) -> Option<Message> {
    if is_frame(bytes) {
        document_message(frame_body(bytes))
    } else {
        None
    }
}

/// The reason given for a message whose body does not fit a frame.
pub open spec fn too_long() -> Seq<char> {
    "message too long for a frame"@
}

/// The reason given for bytes that are no whole frame.
pub open spec fn not_a_frame() -> Seq<char> {
    "length prefix does not match the bytes that follow"@
}

impl MessageType {
    /// The message as compact JSON text.
    pub fn serialize_msg(&self) -> (out: String)
        ensures
            out@ == json_text(message_tree(self@)),
    {
        let tree = self.to_json();
        proof {
            lemma_message_tree_writable(self@);
        }
        write_json(&tree)
    }

    /// The message that a text stands for. A text that is no JSON document
    /// is refused with the reader's account of it, a document that stands
    /// for no message with a fixed one.
    pub fn deserialize_msg(input: &[u8]) -> (out: Result<MessageType, AppError>)
        ensures
            match out {
                Ok(message) => document_message(input@) == Some(message@),
                Err(error) => document_message(input@).is_none() && error@ is Serialization && (
                json_document(input@).is_some() ==> error@ == AppErrorView::Serialization(
                    not_a_message(),
                )),
            },
    {
        match read_json(input) {
            Ok(tree) => MessageType::from_json(&tree),
            Err(why) => Err(AppError::Serialization(why)),
        }
    }

    /// The message as it travels: four bytes of length, then the JSON text.
    /// The length is that of the text in bytes; a text of 2^32 bytes or more
    /// fits no frame and is refused.
    pub fn encode(&self) -> (out: Result<Vec<u8>, AppError>)
        ensures
            match out {
                Ok(bytes) => message_body(self@).len() <= u32::MAX && bytes@ == encoded(self@)
                    && bytes@.len() >= 4 && be_value(bytes@.subrange(0, 4)) == bytes@.len() - 4,
                Err(error) => message_body(self@).len() > u32::MAX && error@
                    == AppErrorView::Message(too_long()),
            },
    {
        let text = self.serialize_msg();
        let body = text.as_str().as_bytes();
        if body.len() > 0xffff_ffff {
            return Err(AppError::Message(String::from_str("message too long for a frame")));
        }
        proof {
            lemma_frame_integrity(self@);
        }
        Ok(frame(body))
    }

    /// The message that travelled as the given bytes, which must be one
    /// whole frame.
    pub fn decode(bytes: &[u8]) -> (out: Result<MessageType, AppError>)
        ensures
            match out {
                Ok(message) => decoded(bytes@) == Some(message@),
                Err(error) => decoded(bytes@).is_none() && (if is_frame(bytes@) {
                    error@ is Serialization && (json_document(frame_body(bytes@)).is_some()
                        ==> error@ == AppErrorView::Serialization(not_a_message()))
                } else {
                    error@ == AppErrorView::Message(not_a_frame())
                }),
            },
    {
        match unframe(bytes) {
            Some(body) => MessageType::deserialize_msg(body.as_slice()),
            None => Err(
                AppError::Message(
                    String::from_str("length prefix does not match the bytes that follow"),
                ),
            ),
        }
    }
}

/// How far the reading of one frame has come.
#[derive(Clone, Copy, Debug, PartialEq, Eq, Structural)]
pub enum FrameProgress {
    /// Nothing is read yet: the four bytes of the length come next.
    Length,
    /// The length is read: a body of that many bytes comes next.
    Body { len: u32 },
}

/// What the bytes that were read come to.
pub enum Fed {
    /// The length; the body is still to be read.
    Length(u32),
    /// The message of a whole frame.
    Message(MessageType),
    /// Bytes that are no frame, or a body that is no message.
    Refused(AppError),
}

impl FrameProgress {
    /// The number of bytes that are to be read next, no more and no fewer.
    pub open spec fn wanted(self) -> nat {
        match self {
            FrameProgress::Length => 4,
            FrameProgress::Body { len } => len as nat,
        }
    }

    /// The number of bytes that are to be read next, no more and no fewer.
    pub fn next_read(&self) -> (n: usize)
        ensures
            n == self.wanted(),
    {
        match self {
            FrameProgress::Length => 4,
            FrameProgress::Body { len } => *len as usize,
        }
    }

    /// Takes the bytes that were read. Four bytes give the length of the
    /// body; a body of that length gives its message, where it holds one.
    /// Bytes of any other number than was asked for are refused: a part of
    /// a frame is never taken for a whole one.
    pub fn feed(&self, bytes: &[u8]) -> (out: Fed)
        ensures
            match out {
                Fed::Length(len) => *self == FrameProgress::Length && bytes@.len() == 4 && len
                    == be_value(bytes@),
                Fed::Message(message) => *self != FrameProgress::Length && bytes@.len()
                    == self.wanted() && document_message(bytes@) == Some(message@),
                Fed::Refused(error) => if bytes@.len() != self.wanted() {
                    error@ == AppErrorView::Message(not_a_frame())
                } else {
                    *self != FrameProgress::Length && document_message(bytes@).is_none()
                        && error@ is Serialization && (json_document(bytes@).is_some() ==> error@
                        == AppErrorView::Serialization(not_a_message()))
                },
            },
    {
        if bytes.len() != self.next_read() {
            return Fed::Refused(
                AppError::Message(
                    String::from_str("length prefix does not match the bytes that follow"),
                ),
            );
        }
        match self {
            FrameProgress::Length => {
                let prefix = [bytes[0], bytes[1], bytes[2], bytes[3]];
                Fed::Length(frame_length(&prefix))
            },
            FrameProgress::Body { .. } => match MessageType::deserialize_msg(bytes) {
                Ok(message) => Fed::Message(message),
                Err(error) => Fed::Refused(error),
            },
        }
    }
}

/// Reading a whole frame in its two parts gives what decoding it at once
/// gives: the length announces the body, and the body holds the message.
pub proof fn lemma_reading_in_parts(bytes: Seq<u8>)
    requires
        is_frame(bytes),
    ensures
        bytes.subrange(0, 4).len() == FrameProgress::Length.wanted(),
        frame_body(bytes).len() == (FrameProgress::Body {
            len: be_value(bytes.subrange(0, 4)) as u32,
        }).wanted(),
        document_message(frame_body(bytes)) == decoded(bytes),
{
    assert(bytes.subrange(0, 4)[0] == bytes[0]);
    assert(bytes.subrange(0, 4)[1] == bytes[1]);
    assert(bytes.subrange(0, 4)[2] == bytes[2]);
    assert(bytes.subrange(0, 4)[3] == bytes[3]);
}

/// A message that is encoded and decoded again comes back as it was,
/// wherever the JSON reader reads the text written for the message's tree
/// back as that tree.
pub proof fn lemma_wire_round_trip(message: Message)
    ensures
        message_body(message).len() <= u32::MAX && json_document(message_body(message)) == Some(
            message_tree(message),
        ) ==> decoded(encoded(message)) == Some(message),
{
    if message_body(message).len() <= u32::MAX {
        lemma_frame_round_trip(message_body(message));
        lemma_tree_round_trip(message);
    }
}

/// The first four bytes of an encoded message, read with the highest byte
/// first, give the number of bytes that follow them.
pub proof fn lemma_frame_integrity(message: Message)
    requires
        message_body(message).len() <= u32::MAX,
    ensures
        encoded(message).len() >= 4,
        be_value(encoded(message).subrange(0, 4)) == encoded(message).len() - 4,
{
    lemma_frame_round_trip(message_body(message));
}

} // verus!
