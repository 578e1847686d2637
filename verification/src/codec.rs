//! The checkpoint's serialized form, over the JSON data model.
//!
//! A checkpoint is persisted as one JSON object, `{"last_page": …,
//! "data": […]}`.  Each record serializes every field; the two optional
//! fields keep their two-level optionality apart: an absent field means
//! `None`, an explicit `null` means present-but-empty, and a value means a
//! present value.  The functions here build and read that object shape;
//! turning the object into text and back is generic JSON work done outside
//! the library.

use vstd::prelude::*;
use crate::records::{
    AbsoluteTxPositionDef, AnyDef, AnyView, CachedData, CachedDataView, ContractInfoDef,
    ContractInfoView,
};

verus! {

broadcast use vstd::std_specs::vec::group_vec_axioms;

/// One JSON value, as far as the checkpoint format needs it: no floating
/// point and no negative numbers ever occur in a checkpoint, so numbers are
/// unsigned integers.
#[derive(Debug, PartialEq)]
pub enum JsonValue {
    Null,
    Bool(bool),
    UInt(u64),
    Text(String),
    Items(Vec<JsonValue>),
    Object(Vec<(String, JsonValue)>),
}

/// Mathematical value of a [`JsonValue`].
pub enum JsonView {
    Null,
    Bool(bool),
    UInt(u64),
    Text(Seq<char>),
    Items(Seq<JsonView>),
    Object(Seq<(Seq<char>, JsonView)>),
}

/// The view of a JSON value.
pub open spec fn jview(j: JsonValue) -> JsonView
    decreases j,
{
    match j {
        JsonValue::Null => JsonView::Null,
        JsonValue::Bool(b) => JsonView::Bool(b),
        JsonValue::UInt(n) => JsonView::UInt(n),
        JsonValue::Text(s) => JsonView::Text(s@),
        JsonValue::Items(items) => JsonView::Items(jviews(items@)),
        JsonValue::Object(fields) => JsonView::Object(jview_fields(fields@)),
    }
}

/// The views of a sequence of JSON values, in order.
pub open spec fn jviews(items: Seq<JsonValue>) -> Seq<JsonView>
    decreases items,
{
    if items.len() == 0 {
        Seq::empty()
    } else {
        jviews(items.drop_last()).push(jview(items.last()))
    }
}

/// The views of an object's fields, in order.
pub open spec fn jview_fields(fields: Seq<(String, JsonValue)>) -> Seq<(Seq<char>, JsonView)>
    decreases fields,
{
    if fields.len() == 0 {
        Seq::empty()
    } else {
        jview_fields(fields.drop_last()).push((fields.last().0@, jview(fields.last().1)))
    }
}

/// `jviews` maps the sequence pointwise.
pub proof fn lemma_jviews(items: Seq<JsonValue>)
    ensures
        jviews(items).len() == items.len(),
        forall|i: int| 0 <= i < items.len() ==> jviews(items)[i] == jview(items[i]),
    decreases items.len(),
{
    if items.len() > 0 {
        lemma_jviews(items.drop_last());
    }
}

/// `jview_fields` maps the fields pointwise.
pub proof fn lemma_jview_fields(fields: Seq<(String, JsonValue)>)
    ensures
        jview_fields(fields).len() == fields.len(),
        forall|i: int|
            0 <= i < fields.len() ==> jview_fields(fields)[i] == (
                fields[i].0@,
                jview(fields[i].1),
            ),
    decreases fields.len(),
{
    if fields.len() > 0 {
        lemma_jview_fields(fields.drop_last());
    }
}

/// The first value stored under `key` at or after position `i`, scanning
/// the fields in order.
pub open spec fn field_lookup_from(
    fields: Seq<(Seq<char>, JsonView)>,
    key: Seq<char>,
    i: int,
) -> Option<JsonView>
    decreases fields.len() - i,
{
    if i < 0 || i >= fields.len() {
        None
    } else if fields[i].0 == key {
        Some(fields[i].1)
    } else {
        field_lookup_from(fields, key, i + 1)
    }
}

/// The first value stored under `key`, or `None` when the object has no
/// such field.
pub open spec fn field_lookup(fields: Seq<(Seq<char>, JsonView)>, key: Seq<char>) -> Option<
    JsonView,
> {
    field_lookup_from(fields, key, 0)
}

// ---------------------------------------------------------------------
// The encoded shape of each piece of the checkpoint.
// ---------------------------------------------------------------------

/// The encoded block position.
pub open spec fn enc_pos(p: AbsoluteTxPositionDef) -> JsonView {
    JsonView::Object(
        seq![
            ("block_height"@, JsonView::UInt(p.block_height)),
            ("tx_index"@, JsonView::UInt(p.tx_index)),
        ],
    )
}

/// The encoded byte payload: one unsigned number per byte.
pub open spec fn enc_bytes(v: Seq<u8>) -> JsonView {
    JsonView::Items(Seq::new(v.len(), |i: int| JsonView::UInt(v[i] as u64)))
}

/// The encoded opaque payload.
pub open spec fn enc_any(a: AnyView) -> JsonView {
    JsonView::Object(
        seq![("type_url"@, JsonView::Text(a.type_url)), ("value"@, enc_bytes(a.value))],
    )
}

/// The field that a two-level optional block position contributes to its
/// record: nothing when absent, `null` when present but empty, the encoded
/// position when present.
pub open spec fn enc_created_field(o: Option<Option<AbsoluteTxPositionDef>>) -> Seq<
    (Seq<char>, JsonView),
> {
    match o {
        Option::None => Seq::empty(),
        Option::Some(Option::None) => seq![("created"@, JsonView::Null)],
        Option::Some(Option::Some(p)) => seq![("created"@, enc_pos(p))],
    }
}

/// The field that a two-level optional payload contributes to its record.
pub open spec fn enc_extension_field(o: Option<Option<AnyView>>) -> Seq<(Seq<char>, JsonView)> {
    match o {
        Option::None => Seq::empty(),
        Option::Some(Option::None) => seq![("extension"@, JsonView::Null)],
        Option::Some(Option::Some(a)) => seq![("extension"@, enc_any(a))],
    }
}

/// The encoded contract record.
pub open spec fn enc_info(c: ContractInfoView) -> JsonView {
    JsonView::Object(
        seq![
            ("code_id"@, JsonView::UInt(c.code_id)),
            ("creator"@, JsonView::Text(c.creator)),
            ("admin"@, JsonView::Text(c.admin)),
            ("label"@, JsonView::Text(c.label)),
        ] + enc_created_field(c.created) + seq![("ibc_port_id"@, JsonView::Text(c.ibc_port_id))]
            + enc_extension_field(c.extension),
    )
}

/// The encoded checkpoint: the page counter and every accumulated record.
pub open spec fn enc_cached(c: CachedDataView) -> JsonView {
    JsonView::Object(
        seq![
            ("last_page"@, JsonView::UInt(c.last_page)),
            ("data"@, JsonView::Items(Seq::new(c.data.len(), |i: int| enc_info(c.data[i])))),
        ],
    )
}

// ---------------------------------------------------------------------
// What a JSON value decodes to, where it decodes at all.
// ---------------------------------------------------------------------

/// Decodes a block position.
pub open spec fn dec_pos(j: JsonView) -> Option<AbsoluteTxPositionDef> {
    match j {
        JsonView::Object(fs) => match (
            field_lookup(fs, "block_height"@),
            field_lookup(fs, "tx_index"@),
        ) {
            (
                Option::Some(JsonView::UInt(h)),
                Option::Some(JsonView::UInt(t)),
            ) => Some(AbsoluteTxPositionDef { block_height: h, tx_index: t }),
            _ => None,
        },
        _ => None,
    }
}

/// Whether a JSON value is one encoded byte.
pub open spec fn is_byte(j: JsonView) -> bool {
    j matches JsonView::UInt(n) && n <= 255
}

/// The byte a JSON value encodes; meaningful only where `is_byte` holds.
pub open spec fn byte_of(j: JsonView) -> u8 {
    match j {
        JsonView::UInt(n) => (n % 256) as u8,
        _ => 0,
    }
}

/// Decodes a byte payload.
pub open spec fn dec_bytes(j: JsonView) -> Option<Seq<u8>> {
    match j {
        JsonView::Items(items) => if forall|i: int|
            0 <= i < items.len() ==> is_byte(#[trigger] items[i]) {
            Some(items.map_values(|x: JsonView| byte_of(x)))
        } else {
            None
        },
        _ => None,
    }
}

/// Decodes an opaque payload.
pub open spec fn dec_any(j: JsonView) -> Option<AnyView> {
    match j {
        JsonView::Object(fs) => match field_lookup(fs, "type_url"@) {
            Option::Some(JsonView::Text(u)) => match field_lookup(fs, "value"@) {
                Option::Some(vj) => match dec_bytes(vj) {
                    Option::Some(v) => Some(AnyView { type_url: u, value: v }),
                    Option::None => None,
                },
                _ => None,
            },
            _ => None,
        },
        _ => None,
    }
}

/// Decodes the two-level optional block position from its field: an absent
/// field is `None`, a `null` is present-but-empty, anything else must be a
/// block position.
pub open spec fn dec_created(fs: Seq<(Seq<char>, JsonView)>) -> Option<
    Option<Option<AbsoluteTxPositionDef>>,
> {
    match field_lookup(fs, "created"@) {
        Option::None => Some(Option::None),
        Option::Some(JsonView::Null) => Some(Option::Some(Option::None)),
        Option::Some(pj) => match dec_pos(pj) {
            Option::Some(p) => Some(Option::Some(Option::Some(p))),
            Option::None => None,
        },
    }
}

/// Decodes the two-level optional payload from its field.
pub open spec fn dec_extension(fs: Seq<(Seq<char>, JsonView)>) -> Option<
    Option<Option<AnyView>>,
> {
    match field_lookup(fs, "extension"@) {
        Option::None => Some(Option::None),
        Option::Some(JsonView::Null) => Some(Option::Some(Option::None)),
        Option::Some(aj) => match dec_any(aj) {
            Option::Some(a) => Some(Option::Some(Option::Some(a))),
            Option::None => None,
        },
    }
}

/// Decodes a contract record.
pub open spec fn dec_info(j: JsonView) -> Option<ContractInfoView> {
    match j {
        JsonView::Object(fs) => match (
            field_lookup(fs, "code_id"@),
            field_lookup(fs, "creator"@),
            field_lookup(fs, "admin"@),
            field_lookup(fs, "label"@),
            field_lookup(fs, "ibc_port_id"@),
        ) {
            (
                Option::Some(JsonView::UInt(code_id)),
                Option::Some(JsonView::Text(creator)),
                Option::Some(JsonView::Text(admin)),
                Option::Some(JsonView::Text(label)),
                Option::Some(JsonView::Text(ibc_port_id)),
            ) => match (dec_created(fs), dec_extension(fs)) {
                (Option::Some(created), Option::Some(extension)) => Some(
                    ContractInfoView {
                        code_id,
                        creator,
                        admin,
                        label,
                        created,
                        ibc_port_id,
                        extension,
                    },
                ),
                _ => None,
            },
            _ => None,
        },
        _ => None,
    }
}

/// Decodes a checkpoint.
pub open spec fn dec_cached(j: JsonView) -> Option<CachedDataView> {
    match j {
        JsonView::Object(fs) => match (field_lookup(fs, "last_page"@), field_lookup(fs, "data"@)) {
            (Option::Some(JsonView::UInt(last_page)), Option::Some(JsonView::Items(items))) => {
                if forall|i: int| 0 <= i < items.len() ==> dec_info(#[trigger] items[i]) is Some {
                    Some(
                        CachedDataView {
                            last_page,
                            data: items.map_values(|x: JsonView| dec_info(x).unwrap()),
                        },
                    )
                } else {
                    None
                }
            },
            _ => None,
        },
        _ => None,
    }
}

// ---------------------------------------------------------------------
// Building the encoded object.
// ---------------------------------------------------------------------

/// Encodes a block position.
pub fn encode_pos(p: &AbsoluteTxPositionDef) -> (j: JsonValue)
    ensures
        jview(j) == enc_pos(*p),
{
    let mut fields: Vec<(String, JsonValue)> = Vec::new();
    fields.push(("block_height".to_owned(), JsonValue::UInt(p.block_height)));
    fields.push(("tx_index".to_owned(), JsonValue::UInt(p.tx_index)));
    let ghost fv = fields@;
    let j = JsonValue::Object(fields);
    proof {
        lemma_jview_fields(fv);
        assert(jview_fields(fv) =~= seq![
            ("block_height"@, JsonView::UInt(p.block_height)),
            ("tx_index"@, JsonView::UInt(p.tx_index)),
        ]);
    }
    j
}

/// Encodes a byte payload.
pub fn encode_bytes(v: &Vec<u8>) -> (j: JsonValue)
    ensures
        jview(j) == enc_bytes(v@),
{
    let mut items: Vec<JsonValue> = Vec::new();
    let mut i: usize = 0;
    while i < v.len()
        invariant
            i <= v@.len(),
            items@.len() == i,
            forall|k: int| 0 <= k < i ==> items@[k] == JsonValue::UInt(v@[k] as u64),
        decreases v@.len() - i,
    {
        items.push(JsonValue::UInt(v[i] as u64));
        i += 1;
    }
    let ghost iv = items@;
    let j = JsonValue::Items(items);
    proof {
        lemma_jviews(iv);
        assert(jviews(iv) =~= Seq::new(v@.len(), |k: int| JsonView::UInt(v@[k] as u64)));
    }
    j
}

/// Encodes an opaque payload.
pub fn encode_any(a: &AnyDef) -> (j: JsonValue)
    ensures
        jview(j) == enc_any(a@),
{
    let mut fields: Vec<(String, JsonValue)> = Vec::new();
    fields.push(("type_url".to_owned(), JsonValue::Text(a.type_url.clone())));
    fields.push(("value".to_owned(), encode_bytes(&a.value)));
    let ghost fv = fields@;
    let j = JsonValue::Object(fields);
    proof {
        lemma_jview_fields(fv);
        assert(jview_fields(fv) =~= seq![
            ("type_url"@, JsonView::Text(a.type_url@)),
            ("value"@, enc_bytes(a.value@)),
        ]);
    }
    j
}

/// Encodes a contract record, writing the two optional fields only where
/// they are present, and `null` where they are present but empty.
pub fn encode_info(info: &ContractInfoDef) -> (j: JsonValue)
    ensures
        jview(j) == enc_info(info@),
{
    let mut fields: Vec<(String, JsonValue)> = Vec::new();
    fields.push(("code_id".to_owned(), JsonValue::UInt(info.code_id)));
    fields.push(("creator".to_owned(), JsonValue::Text(info.creator.clone())));
    fields.push(("admin".to_owned(), JsonValue::Text(info.admin.clone())));
    fields.push(("label".to_owned(), JsonValue::Text(info.label.clone())));
    let ghost head = fields@;
    match &info.created {
        Option::None => {},
        Option::Some(Option::None) => {
            fields.push(("created".to_owned(), JsonValue::Null));
        },
        Option::Some(Option::Some(p)) => {
            fields.push(("created".to_owned(), encode_pos(p)));
        },
    }
    proof {
        lemma_jview_fields(fields@);
        lemma_jview_fields(head);
        assert(jview_fields(fields@) =~= jview_fields(head) + enc_created_field(
            info@.created,
        ));
    }
    let ghost mid = fields@;
    fields.push(("ibc_port_id".to_owned(), JsonValue::Text(info.ibc_port_id.clone())));
    let ghost mid2 = fields@;
    match &info.extension {
        Option::None => {},
        Option::Some(Option::None) => {
            fields.push(("extension".to_owned(), JsonValue::Null));
        },
        Option::Some(Option::Some(a)) => {
            fields.push(("extension".to_owned(), encode_any(a)));
        },
    }
    let ghost fv = fields@;
    let j = JsonValue::Object(fields);
    proof {
        lemma_jview_fields(fv);
        lemma_jview_fields(mid2);
        lemma_jview_fields(mid);
        assert(jview_fields(mid2) =~= jview_fields(mid) + seq![
            ("ibc_port_id"@, JsonView::Text(info.ibc_port_id@)),
        ]);
        assert(jview_fields(fv) =~= jview_fields(mid2) + enc_extension_field(
            info@.extension,
        ));
        assert(jview_fields(head) =~= seq![
            ("code_id"@, JsonView::UInt(info.code_id)),
            ("creator"@, JsonView::Text(info.creator@)),
            ("admin"@, JsonView::Text(info.admin@)),
            ("label"@, JsonView::Text(info.label@)),
        ]);
        assert(jview_fields(fv) =~= seq![
            ("code_id"@, JsonView::UInt(info.code_id)),
            ("creator"@, JsonView::Text(info.creator@)),
            ("admin"@, JsonView::Text(info.admin@)),
            ("label"@, JsonView::Text(info.label@)),
        ] + enc_created_field(info@.created) + seq![
            ("ibc_port_id"@, JsonView::Text(info.ibc_port_id@)),
        ] + enc_extension_field(info@.extension));
    }
    j
}

/// Encodes a whole checkpoint as the object that is persisted.
pub fn encode_checkpoint(c: &CachedData) -> (j: JsonValue)
    ensures
        jview(j) == enc_cached(c@),
{
    let mut items: Vec<JsonValue> = Vec::new();
    let mut i: usize = 0;
    while i < c.data.len()
        invariant
            i <= c.data@.len(),
            items@.len() == i,
            forall|k: int|
                0 <= k < i ==> jview(#[trigger] items@[k]) == enc_info(c.data@[k]@),
        decreases c.data@.len() - i,
    {
        let one = encode_info(&c.data[i]);
        items.push(one);
        i += 1;
    }
    let ghost iv = items@;
    let mut fields: Vec<(String, JsonValue)> = Vec::new();
    fields.push(("last_page".to_owned(), JsonValue::UInt(c.last_page)));
    fields.push(("data".to_owned(), JsonValue::Items(items)));
    let ghost fv = fields@;
    let j = JsonValue::Object(fields);
    proof {
        lemma_jviews(iv);
        assert(jviews(iv) =~= Seq::new(c@.data.len(), |k: int| enc_info(c@.data[k])));
        lemma_jview_fields(fv);
        assert(jview_fields(fv) =~= seq![
            ("last_page"@, JsonView::UInt(c.last_page)),
            ("data"@, JsonView::Items(jviews(iv))),
        ]);
    }
    j
}

// ---------------------------------------------------------------------
// Reading the encoded object back.
// ---------------------------------------------------------------------

/// A scan that misses `key` everywhere at or after `j` finds nothing.
proof fn lemma_lookup_miss(fs: Seq<(Seq<char>, JsonView)>, key: Seq<char>, j: int)
    requires
        0 <= j <= fs.len(),
        forall|k: int| j <= k < fs.len() ==> (#[trigger] fs[k]).0 != key,
    ensures
        field_lookup_from(fs, key, j) is None,
    decreases fs.len() - j,
{
    if j < fs.len() {
        lemma_lookup_miss(fs, key, j + 1);
    }
}

/// A scan that misses `key` before `i` and hits it at `i` finds `fs[i]`.
proof fn lemma_lookup_hit(fs: Seq<(Seq<char>, JsonView)>, key: Seq<char>, j: int, i: int)
    requires
        0 <= j <= i < fs.len(),
        fs[i].0 == key,
        forall|k: int| j <= k < i ==> (#[trigger] fs[k]).0 != key,
    ensures
        field_lookup_from(fs, key, j) == Some(fs[i].1),
    decreases i - j,
{
    if j < i {
        lemma_lookup_hit(fs, key, j + 1, i);
    }
}

/// Finds the first field named `key`, scanning the object's fields in
/// order, exactly as `field_lookup` does.
fn get_field<'a>(fields: &'a Vec<(String, JsonValue)>, key: &str) -> (r: Option<&'a JsonValue>)
    ensures
        match r {
            Option::Some(v) => field_lookup(jview_fields(fields@), key@) == Some(jview(*v)),
            Option::None => field_lookup(jview_fields(fields@), key@) is None,
        },
{
    let wanted: String = key.to_owned();
    let mut i: usize = 0;
    while i < fields.len()
        invariant
            wanted@ == key@,
            i <= fields@.len(),
            forall|k: int|
                0 <= k < i ==> (#[trigger] jview_fields(fields@)[k]).0 != key@,
        decreases fields@.len() - i,
    {
        proof {
            lemma_jview_fields(fields@);
        }
        if fields[i].0 == wanted {
            proof {
                lemma_lookup_hit(jview_fields(fields@), key@, 0, i as int);
            }
            return Some(&fields[i].1);
        }
        i += 1;
    }
    proof {
        lemma_jview_fields(fields@);
        lemma_lookup_miss(jview_fields(fields@), key@, 0);
    }
    None
}

/// Decodes a block position, exactly where `dec_pos` is defined.
pub fn decode_pos(j: &JsonValue) -> (r: Option<AbsoluteTxPositionDef>)
    ensures
        r == dec_pos(jview(*j)),
{
    match j {
        JsonValue::Object(fields) => {
            let h = get_field(fields, "block_height");
            let t = get_field(fields, "tx_index");
            match (h, t) {
                (Option::Some(JsonValue::UInt(bh)), Option::Some(JsonValue::UInt(ti))) => Some(
                    AbsoluteTxPositionDef { block_height: *bh, tx_index: *ti },
                ),
                _ => None,
            }
        },
        _ => None,
    }
}

/// Decodes a byte payload, exactly where `dec_bytes` is defined.
pub fn decode_bytes(j: &JsonValue) -> (r: Option<Vec<u8>>)
    ensures
        match r {
            Option::Some(v) => dec_bytes(jview(*j)) == Some(v@),
            Option::None => dec_bytes(jview(*j)) is None,
        },
{
    match j {
        JsonValue::Items(items) => {
            let mut out: Vec<u8> = Vec::new();
            let mut i: usize = 0;
            while i < items.len()
                invariant
                    jview(*j) == JsonView::Items(jviews(items@)),
                    i <= items@.len(),
                    out@.len() == i,
                    forall|k: int| 0 <= k < i ==> is_byte(#[trigger] jviews(items@)[k]),
                    forall|k: int|
                        0 <= k < i ==> out@[k] == byte_of(#[trigger] jviews(items@)[k]),
                decreases items@.len() - i,
            {
                proof {
                    lemma_jviews(items@);
                }
                match &items[i] {
                    JsonValue::UInt(n) => {
                        if *n <= 255 {
                            out.push(*n as u8);
                        } else {
                            proof {
                                assert(jviews(items@)[i as int] == jview(items@[i as int]));
                            }
                            return None;
                        }
                    },
                    _ => {
                        proof {
                            assert(jviews(items@)[i as int] == jview(items@[i as int]));
                        }
                        return None;
                    },
                }
                i += 1;
            }
            proof {
                lemma_jviews(items@);
                assert(jviews(items@).map_values(|x: JsonView| byte_of(x)) =~= out@);
            }
            Some(out)
        },
        _ => None,
    }
}

/// Decodes an opaque payload, exactly where `dec_any` is defined.
pub fn decode_any(j: &JsonValue) -> (r: Option<AnyDef>)
    ensures
        match r {
            Option::Some(a) => dec_any(jview(*j)) == Some(a@),
            Option::None => dec_any(jview(*j)) is None,
        },
{
    match j {
        JsonValue::Object(fields) => {
            let u = get_field(fields, "type_url");
            match u {
                Option::Some(JsonValue::Text(url)) => {
                    match get_field(fields, "value") {
                        Option::Some(vj) => match decode_bytes(vj) {
                            Option::Some(v) => Some(
                                AnyDef { type_url: url.clone(), value: v },
                            ),
                            Option::None => None,
                        },
                        Option::None => None,
                    }
                },
                _ => None,
            }
        },
        _ => None,
    }
}

/// Decodes a contract record, exactly where `dec_info` is defined.
pub fn decode_info(j: &JsonValue) -> (r: Option<ContractInfoDef>)
    ensures
        match r {
            Option::Some(c) => dec_info(jview(*j)) == Some(c@),
            Option::None => dec_info(jview(*j)) is None,
        },
{
    let fields = match j {
        JsonValue::Object(fields) => fields,
        _ => {
            return None;
        },
    };
    let code_id: u64 = match get_field(fields, "code_id") {
        Option::Some(JsonValue::UInt(n)) => *n,
        _ => {
            return None;
        },
    };
    let creator: String = match get_field(fields, "creator") {
        Option::Some(JsonValue::Text(s)) => s.clone(),
        _ => {
            return None;
        },
    };
    let admin: String = match get_field(fields, "admin") {
        Option::Some(JsonValue::Text(s)) => s.clone(),
        _ => {
            return None;
        },
    };
    let label: String = match get_field(fields, "label") {
        Option::Some(JsonValue::Text(s)) => s.clone(),
        _ => {
            return None;
        },
    };
    let ibc_port_id: String = match get_field(fields, "ibc_port_id") {
        Option::Some(JsonValue::Text(s)) => s.clone(),
        _ => {
            return None;
        },
    };
    let created: Option<Option<AbsoluteTxPositionDef>> = match get_field(fields, "created") {
        Option::None => None,
        Option::Some(cj) => match cj {
            JsonValue::Null => Some(None),
            _ => match decode_pos(cj) {
                Option::Some(p) => Some(Some(p)),
                Option::None => {
                    return None;
                },
            },
        },
    };
    let extension: Option<Option<AnyDef>> = match get_field(fields, "extension") {
        Option::None => None,
        Option::Some(ej) => match ej {
            JsonValue::Null => Some(None),
            _ => match decode_any(ej) {
                Option::Some(a) => Some(Some(a)),
                Option::None => {
                    return None;
                },
            },
        },
    };
    Some(ContractInfoDef { code_id, creator, admin, label, created, ibc_port_id, extension })
}

/// Decodes a checkpoint, exactly where `dec_cached` is defined: the object
/// written by `encode_checkpoint`, whatever order its fields arrive in.
pub fn decode_checkpoint(j: &JsonValue) -> (r: Option<CachedData>)
    ensures
        match r {
            Option::Some(c) => dec_cached(jview(*j)) == Some(c@),
            Option::None => dec_cached(jview(*j)) is None,
        },
{
    let fields = match j {
        JsonValue::Object(fields) => fields,
        _ => {
            return None;
        },
    };
    let last_page: u64 = match get_field(fields, "last_page") {
        Option::Some(JsonValue::UInt(n)) => *n,
        _ => {
            return None;
        },
    };
    let items = match get_field(fields, "data") {
        Option::Some(JsonValue::Items(items)) => items,
        _ => {
            return None;
        },
    };
    let mut data: Vec<ContractInfoDef> = Vec::new();
    let mut i: usize = 0;
    while i < items.len()
        invariant
            jview(*j) == JsonView::Object(jview_fields(fields@)),
            field_lookup(jview_fields(fields@), "last_page"@) == Some(
                JsonView::UInt(last_page),
            ),
            field_lookup(jview_fields(fields@), "data"@) == Some(
                JsonView::Items(jviews(items@)),
            ),
            i <= items@.len(),
            data@.len() == i,
            forall|k: int|
                0 <= k < i ==> dec_info(#[trigger] jviews(items@)[k]) is Some,
            forall|k: int|
                0 <= k < i ==> dec_info(#[trigger] jviews(items@)[k]) == Some(data@[k]@),
        decreases items@.len() - i,
    {
        proof {
            lemma_jviews(items@);
        }
        match decode_info(&items[i]) {
            Option::Some(c) => {
                data.push(c);
            },
            Option::None => {
                proof {
                    assert(jviews(items@)[i as int] == jview(items@[i as int]));
                }
                return None;
            },
        }
        i += 1;
    }
    proof {
        lemma_jviews(items@);
        assert(jviews(items@).map_values(|x: JsonView| dec_info(x).unwrap())
            =~= crate::records::info_views(data@));
    }
    Some(CachedData { last_page, data })
}

// ---------------------------------------------------------------------
// Round-trip: decoding an encoded checkpoint yields it back exactly.
// ---------------------------------------------------------------------

/// The distinct field names of the checkpoint format.
proof fn lemma_distinct_keys()
    ensures
        "tx_index"@ != "block_height"@,
        "value"@ != "type_url"@,
        "creator"@ != "code_id"@,
        "admin"@ != "code_id"@,
        "admin"@ != "creator"@,
        "label"@ != "code_id"@,
        "label"@ != "creator"@,
        "label"@ != "admin"@,
        "created"@ != "code_id"@,
        "created"@ != "creator"@,
        "created"@ != "admin"@,
        "created"@ != "label"@,
        "ibc_port_id"@ != "code_id"@,
        "ibc_port_id"@ != "creator"@,
        "ibc_port_id"@ != "admin"@,
        "ibc_port_id"@ != "label"@,
        "ibc_port_id"@ != "created"@,
        "extension"@ != "code_id"@,
        "extension"@ != "creator"@,
        "extension"@ != "admin"@,
        "extension"@ != "label"@,
        "extension"@ != "created"@,
        "extension"@ != "ibc_port_id"@,
        "data"@ != "last_page"@,
{
    reveal_strlit("tx_index");
    reveal_strlit("block_height");
    reveal_strlit("value");
    reveal_strlit("type_url");
    reveal_strlit("code_id");
    reveal_strlit("creator");
    reveal_strlit("admin");
    reveal_strlit("label");
    reveal_strlit("created");
    reveal_strlit("ibc_port_id");
    reveal_strlit("extension");
    reveal_strlit("data");
    reveal_strlit("last_page");
    assert("tx_index"@.len() == 8);
    assert("block_height"@.len() == 12);
    assert("value"@.len() == 5);
    assert("type_url"@.len() == 8);
    assert("code_id"@.len() == 7);
    assert("creator"@.len() == 7);
    assert("admin"@.len() == 5);
    assert("label"@.len() == 5);
    assert("created"@.len() == 7);
    assert("ibc_port_id"@.len() == 11);
    assert("extension"@.len() == 9);
    assert("data"@.len() == 4);
    assert("last_page"@.len() == 9);
    assert("code_id"@[1] != "creator"@[1]);
    assert("code_id"@[1] != "created"@[1]);
    assert("creator"@[5] != "created"@[5]);
    assert("admin"@[0] != "label"@[0]);
}

/// A block position decodes back from its encoding.
pub proof fn lemma_round_trip_pos(p: AbsoluteTxPositionDef)
    ensures
        dec_pos(enc_pos(p)) == Some(p),
{
    lemma_distinct_keys();
    reveal_with_fuel(field_lookup_from, 4);
}

/// A byte payload decodes back from its encoding.
pub proof fn lemma_round_trip_bytes(v: Seq<u8>)
    ensures
        dec_bytes(enc_bytes(v)) == Some(v),
{
    let items = Seq::new(v.len(), |i: int| JsonView::UInt(v[i] as u64));
    assert(forall|i: int| 0 <= i < items.len() ==> is_byte(#[trigger] items[i]));
    assert(items.map_values(|x: JsonView| byte_of(x)) =~= v);
}

/// An opaque payload decodes back from its encoding.
pub proof fn lemma_round_trip_any(a: AnyView)
    ensures
        dec_any(enc_any(a)) == Some(a),
{
    lemma_distinct_keys();
    reveal_with_fuel(field_lookup_from, 4);
    lemma_round_trip_bytes(a.value);
}

/// A contract record decodes back from its encoding, with both optional
/// fields keeping their two-level optionality: absent stays absent,
/// present-but-empty stays present-but-empty, a value stays that value.
pub proof fn lemma_round_trip_info(c: ContractInfoView)
    ensures
        dec_info(enc_info(c)) == Some(c),
{
    lemma_distinct_keys();
    reveal_with_fuel(field_lookup_from, 12);
    match c.created {
        Option::None => {},
        Option::Some(Option::None) => {},
        Option::Some(Option::Some(p)) => {
            lemma_round_trip_pos(p);
        },
    }
    match c.extension {
        Option::None => {},
        Option::Some(Option::None) => {},
        Option::Some(Option::Some(a)) => {
            lemma_round_trip_any(a);
        },
    }
}

/// Round-trip: a checkpoint, whatever mix of absent, present-but-empty and
/// fully populated optional fields its records carry, decodes back from
/// its encoding to exactly the same value.
pub proof fn lemma_round_trip_checkpoint(c: CachedDataView)
    ensures
        dec_cached(enc_cached(c)) == Some(c),
{
    lemma_distinct_keys();
    reveal_with_fuel(field_lookup_from, 4);
    let items = Seq::new(c.data.len(), |i: int| enc_info(c.data[i]));
    assert forall|i: int| 0 <= i < items.len() implies dec_info(#[trigger] items[i]) == Some(
        c.data[i],
    ) by {
        lemma_round_trip_info(c.data[i]);
    }
    assert(items.map_values(|x: JsonView| dec_info(x).unwrap()) =~= c.data);
}

} // verus!
