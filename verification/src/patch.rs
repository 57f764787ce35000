//! Patch synthesis and application: the JSON patch that injects the resolved
//! push endpoint into the object's spec, a model of JSON documents, and a
//! verified `add` semantics the synthesized patch is proved against.

use vstd::prelude::*;
use crate::text::{
    has_no_sep, lemma_split_no_sep, lemma_split_sep_after_prefix, spec_lookup, spec_split,
    split_char, str_eq, views_of,
};

verus! {

broadcast use vstd::std_specs::vec::group_vec_axioms;

/// A JSON document, as far as the patches need one.
pub enum JsonValue {
    Null,
    Text(String),
    Object(Vec<(String, JsonValue)>),
}

/// The mathematical model of a JSON document.
#[verifier::ext_equal]
pub enum JsonModel {
    Null,
    Text(Seq<char>),
    Object(Seq<(Seq<char>, JsonModel)>),
}

/// The model of an executable JSON document.
pub open spec fn json_model(v: JsonValue) -> JsonModel
    decreases v,
{
    match v {
        JsonValue::Null => JsonModel::Null,
        JsonValue::Text(s) => JsonModel::Text(s@),
        JsonValue::Object(fields) => JsonModel::Object(json_fields_model(fields@)),
    }
}

/// The models of an object's fields.
pub open spec fn json_fields_model(fields: Seq<(String, JsonValue)>) -> Seq<(Seq<char>, JsonModel)>
    decreases fields,
{
    if fields.len() == 0 {
        Seq::empty()
    } else {
        json_fields_model(fields.subrange(0, fields.len() - 1)).push(
            (fields[fields.len() - 1].0@, json_model(fields[fields.len() - 1].1)),
        )
    }
}

/// The model of an object's fields, member by member.
proof fn lemma_json_fields_model(fields: Seq<(String, JsonValue)>)
    ensures
        json_fields_model(fields).len() == fields.len(),
        forall|i: int|
            0 <= i < fields.len() ==> #[trigger] json_fields_model(fields)[i] == (
                fields[i].0@,
                json_model(fields[i].1),
            ),
    decreases fields.len(),
{
    if fields.len() > 0 {
        lemma_json_fields_model(fields.subrange(0, fields.len() - 1));
    }
}

/// One `add` operation of a JSON patch.
pub struct AddOperation {
    pub path: String,
    pub value: JsonValue,
}

/// A JSON patch operation; this library only ever adds.
pub enum PatchOperation {
    Add(AddOperation),
}

/// The model of a patch operation.
#[verifier::ext_equal]
pub struct OpModel {
    pub path: Seq<char>,
    pub value: JsonModel,
}

/// The model of an executable patch operation.
pub open spec fn op_model(op: PatchOperation) -> OpModel {
    match op {
        PatchOperation::Add(a) => OpModel { path: a.path@, value: json_model(a.value) },
    }
}

/// The models of a sequence of patch operations.
pub open spec fn op_models(ops: Seq<PatchOperation>) -> Seq<OpModel> {
    ops.map_values(|op: PatchOperation| op_model(op))
}

/// Adding `value` under `key` in an object's fields: replaces the first
/// binding of `key`, or appends one when the key is absent.
pub open spec fn spec_obj_add(
    fields: Seq<(Seq<char>, JsonModel)>,
    key: Seq<char>,
    value: JsonModel,
) -> Seq<(Seq<char>, JsonModel)>
    decreases fields.len(),
{
    if fields.len() == 0 {
        seq![(key, value)]
    } else if fields[0].0 == key {
        seq![(key, value)] + fields.drop_first()
    } else {
        seq![fields[0]] + spec_obj_add(fields.drop_first(), key, value)
    }
}

/// Adding `value` at the path `segs[i..]` below `doc`: every intermediate
/// segment must name an existing object member, and the final segment's
/// parent must be an object; otherwise the addition fails.
pub open spec fn spec_add(doc: JsonModel, segs: Seq<Seq<char>>, i: int, value: JsonModel) -> Option<
    JsonModel,
>
    decreases segs.len() - i,
{
    if i >= segs.len() {
        Some(value)
    } else {
        match doc {
            JsonModel::Object(fields) => {
                if i == segs.len() - 1 {
                    Some(JsonModel::Object(spec_obj_add(fields, segs[i], value)))
                } else {
                    match spec_lookup(fields, segs[i]) {
                        Some(child) => match spec_add(child, segs, i + 1, value) {
                            Some(nc) => Some(
                                JsonModel::Object(spec_obj_add(fields, segs[i], nc)),
                            ),
                            None => None,
                        },
                        None => None,
                    }
                }
            },
            _ => None,
        }
    }
}

/// Applying one `add` operation to a document. An empty path replaces the
/// whole document; any other path must start with `/`.
pub open spec fn spec_apply_add(doc: JsonModel, path: Seq<char>, value: JsonModel) -> Option<
    JsonModel,
> {
    if path.len() == 0 {
        Some(value)
    } else if path[0] == '/' {
        spec_add(doc, spec_split(path, '/'), 1, value)
    } else {
        None
    }
}

/// Applying a sequence of operations in order; fails as soon as one does.
pub open spec fn spec_apply_patch(doc: JsonModel, ops: Seq<OpModel>) -> Option<JsonModel>
    decreases ops.len(),
{
    if ops.len() == 0 {
        Some(doc)
    } else {
        match spec_apply_add(doc, ops[0].path, ops[0].value) {
            Some(d) => spec_apply_patch(d, ops.drop_first()),
            None => None,
        }
    }
}

/// The two operations that inject `v` as the push endpoint: first create the
/// parent container, then set the endpoint below it.
pub open spec fn spec_synthesize(v: Seq<char>) -> Seq<OpModel> {
    seq![
        OpModel { path: "/spec/pushConfig"@, value: JsonModel::Object(Seq::empty()) },
        OpModel { path: "/spec/pushConfig/pushEndpoint"@, value: JsonModel::Text(v) },
    ]
}

/// Builds the patch that injects `endpoint_secret` into the object's spec:
/// exactly two `add` operations, in order, as [`spec_synthesize`] states.
pub fn get_json_patch(endpoint_secret: String) -> (r: Vec<PatchOperation>)
    ensures
        op_models(r@) == spec_synthesize(endpoint_secret@),
{
    let mut patches: Vec<PatchOperation> = Vec::new();
    patches.push(
        PatchOperation::Add(
            AddOperation { path: "/spec/pushConfig".to_owned(), value: JsonValue::Object(Vec::new()) },
        ),
    );
    patches.push(
        PatchOperation::Add(
            AddOperation {
                path: "/spec/pushConfig/pushEndpoint".to_owned(),
                value: JsonValue::Text(endpoint_secret),
            },
        ),
    );
    proof {
        assert(json_model(patches@[0]->Add_0.value) =~~= JsonModel::Object(Seq::empty()));
        assert(op_models(patches@) =~~= spec_synthesize(patches@[1]->Add_0.value->Text_0@));
    }
    patches
}

/// Lookup in an object after an add: the added key is bound to the new
/// value, every other key to what it was bound to before.
proof fn lemma_lookup_after_add(
    fields: Seq<(Seq<char>, JsonModel)>,
    key: Seq<char>,
    value: JsonModel,
    key2: Seq<char>,
)
    ensures
        spec_lookup(spec_obj_add(fields, key, value), key2) == if key2 == key {
            Some(value)
        } else {
            spec_lookup(fields, key2)
        },
    decreases fields.len(),
{
    if fields.len() == 0 {
        let single = seq![(key, value)];
        assert(spec_obj_add(fields, key, value) == single);
        assert(single.drop_first() =~~= Seq::<(Seq<char>, JsonModel)>::empty());
        assert(spec_lookup(single.drop_first(), key2) is None);
        assert(spec_lookup(single, key2) == if key2 == key {
            Some(value)
        } else {
            spec_lookup(single.drop_first(), key2)
        });
    } else if fields[0].0 == key {
        let res = seq![(key, value)] + fields.drop_first();
        assert(spec_obj_add(fields, key, value) == res);
        assert(res[0].0 == key);
        assert(res.drop_first() =~~= fields.drop_first());
        assert(spec_lookup(res, key2) == if key2 == key {
            Some(value)
        } else {
            spec_lookup(fields.drop_first(), key2)
        });
        assert(key2 != key ==> spec_lookup(fields, key2) == spec_lookup(
            fields.drop_first(),
            key2,
        ));
    } else {
        lemma_lookup_after_add(fields.drop_first(), key, value, key2);
        let res = seq![fields[0]] + spec_obj_add(fields.drop_first(), key, value);
        assert(spec_obj_add(fields, key, value) == res);
        assert(res[0] == fields[0]);
        assert(res.drop_first() =~~= spec_obj_add(fields.drop_first(), key, value));
        assert(spec_lookup(res, key2) == if key2 == fields[0].0 {
            Some(fields[0].1)
        } else {
            spec_lookup(spec_obj_add(fields.drop_first(), key, value), key2)
        });
        assert(key2 != fields[0].0 ==> spec_lookup(fields, key2) == spec_lookup(
            fields.drop_first(),
            key2,
        ));
    }
}

/// What value stands at `pushEndpoint` below `pushConfig` below `spec`.
pub open spec fn spec_endpoint_of(doc: JsonModel) -> Option<JsonModel> {
    match doc {
        JsonModel::Object(fields) => match spec_lookup(fields, "spec"@) {
            Some(JsonModel::Object(sf)) => match spec_lookup(sf, "pushConfig"@) {
                Some(JsonModel::Object(pf)) => spec_lookup(pf, "pushEndpoint"@),
                _ => None,
            },
            _ => None,
        },
        _ => None,
    }
}

/// The two synthesized operations, applied in order to any object whose
/// `spec` member is an object without a `pushConfig` member, succeed and
/// leave `v` as the value of `spec.pushConfig.pushEndpoint`; the second
/// operation without the first fails on such an object.
pub proof fn lemma_synthesize_injects(doc: JsonModel, v: Seq<char>)
    requires
        doc is Object,
        spec_lookup(doc->Object_0, "spec"@) is Some,
        spec_lookup(doc->Object_0, "spec"@)->Some_0 is Object,
        spec_lookup(
            spec_lookup(doc->Object_0, "spec"@)->Some_0->Object_0,
            "pushConfig"@,
        ) is None,
    ensures
        spec_apply_patch(doc, spec_synthesize(v)) is Some,
        spec_endpoint_of(spec_apply_patch(doc, spec_synthesize(v))->Some_0) == Some(
            JsonModel::Text(v),
        ),
        spec_apply_patch(doc, spec_synthesize(v).drop_first()) is None,
{
    let p1 = "/spec/pushConfig"@;
    let p2 = "/spec/pushConfig/pushEndpoint"@;
    reveal_strlit("/spec/pushConfig");
    reveal_strlit("/spec/pushConfig/pushEndpoint");
    reveal_strlit("spec");
    reveal_strlit("pushConfig");
    reveal_strlit("pushEndpoint");
    assert(has_no_sep("spec"@, '/'));
    assert(has_no_sep("pushConfig"@, '/'));
    assert(has_no_sep("pushEndpoint"@, '/'));
    // Segment the first path.
    assert(p1 =~= Seq::<char>::empty() + seq!['/'] + ("spec"@ + seq!['/'] + "pushConfig"@));
    lemma_split_sep_after_prefix(
        Seq::<char>::empty(),
        "spec"@ + seq!['/'] + "pushConfig"@,
        '/',
    );
    lemma_split_sep_after_prefix("spec"@, "pushConfig"@, '/');
    lemma_split_no_sep("pushConfig"@, '/');
    let segs1 = spec_split(p1, '/');
    assert(segs1 =~~= seq![Seq::<char>::empty(), "spec"@, "pushConfig"@]);
    // Segment the second path.
    assert(p2 =~= Seq::<char>::empty() + seq!['/'] + ("spec"@ + seq!['/'] + ("pushConfig"@
        + seq!['/'] + "pushEndpoint"@)));
    lemma_split_sep_after_prefix(
        Seq::<char>::empty(),
        "spec"@ + seq!['/'] + ("pushConfig"@ + seq!['/'] + "pushEndpoint"@),
        '/',
    );
    lemma_split_sep_after_prefix(
        "spec"@,
        "pushConfig"@ + seq!['/'] + "pushEndpoint"@,
        '/',
    );
    lemma_split_sep_after_prefix("pushConfig"@, "pushEndpoint"@, '/');
    lemma_split_no_sep("pushEndpoint"@, '/');
    let segs2 = spec_split(p2, '/');
    assert(segs2 =~~= seq![Seq::<char>::empty(), "spec"@, "pushConfig"@, "pushEndpoint"@]);
    // The first operation: create the empty container below spec.
    let fields = doc->Object_0;
    let sf = spec_lookup(fields, "spec"@)->Some_0->Object_0;
    let empty_obj = JsonModel::Object(Seq::empty());
    let s1 = JsonModel::Object(spec_obj_add(sf, "pushConfig"@, empty_obj));
    assert(spec_add(JsonModel::Object(sf), segs1, 2, empty_obj) == Some(s1));
    let doc1 = JsonModel::Object(spec_obj_add(fields, "spec"@, s1));
    assert(spec_apply_add(doc, p1, empty_obj) == Some(doc1));
    // The second operation: set the endpoint below the container.
    lemma_lookup_after_add(fields, "spec"@, s1, "spec"@);
    lemma_lookup_after_add(sf, "pushConfig"@, empty_obj, "pushConfig"@);
    let endpoint = JsonModel::Text(v);
    let pobj = JsonModel::Object(spec_obj_add(Seq::empty(), "pushEndpoint"@, endpoint));
    assert(spec_add(empty_obj, segs2, 3, endpoint) == Some(pobj));
    let sf1 = spec_obj_add(sf, "pushConfig"@, empty_obj);
    let s2 = JsonModel::Object(spec_obj_add(sf1, "pushConfig"@, pobj));
    assert(spec_add(s1, segs2, 2, endpoint) == Some(s2));
    let f1 = spec_obj_add(fields, "spec"@, s1);
    let doc2 = JsonModel::Object(spec_obj_add(f1, "spec"@, s2));
    assert(spec_apply_add(doc1, p2, endpoint) == Some(doc2));
    // Both operations in order succeed and leave the endpoint in place.
    let ops = spec_synthesize(v);
    assert(ops[0] == OpModel { path: p1, value: empty_obj });
    assert(ops[1] == OpModel { path: p2, value: endpoint });
    assert(ops.drop_first() =~~= seq![ops[1]]);
    assert(seq![ops[1]].drop_first() =~~= Seq::<OpModel>::empty());
    assert(spec_apply_patch(doc2, Seq::<OpModel>::empty()) == Some(doc2));
    assert(spec_apply_patch(doc1, seq![ops[1]]) == Some(doc2));
    assert(spec_apply_patch(doc1, ops.drop_first()) == Some(doc2));
    assert(spec_apply_patch(doc, ops) == Some(doc2));
    lemma_lookup_after_add(f1, "spec"@, s2, "spec"@);
    lemma_lookup_after_add(sf1, "pushConfig"@, pobj, "pushConfig"@);
    assert(spec_lookup(spec_obj_add(Seq::empty(), "pushEndpoint"@, endpoint), "pushEndpoint"@)
        == Some(endpoint));
    assert(spec_endpoint_of(doc2) == Some(endpoint));
    // The second operation alone fails: the container is missing.
    assert(spec_add(JsonModel::Object(sf), segs2, 2, endpoint) is None);
    assert(spec_apply_add(doc, p2, endpoint) is None);
    assert(spec_apply_patch(doc, ops.drop_first()) is None);
}

/// Application of an `add` operation failed: a path segment other than the
/// last named no member, a traversed value was not an object, or the path
/// did not start with `/`.
#[derive(Debug)]
pub struct PatchError {}

/// First bindings win: the index of the first field bound to `key`.
fn find_field(fields: &Vec<(String, JsonValue)>, key: &str) -> (r: Option<usize>)
    ensures
        match r {
            Some(j) => {
                &&& 0 <= j < fields@.len()
                &&& fields@[j as int].0@ == key@
                &&& forall|k: int| 0 <= k < j ==> fields@[k].0@ != key@
            },
            None => forall|k: int| 0 <= k < fields@.len() ==> fields@[k].0@ != key@,
        },
{
    let n = fields.len();
    let mut i: usize = 0;
    while i < n
        invariant
            i <= n,
            n == fields@.len(),
            forall|k: int| 0 <= k < i ==> fields@[k].0@ != key@,
        decreases n - i,
    {
        if str_eq(fields[i].0.as_str(), key) {
            return Some(i);
        }
        i += 1;
    }
    None
}

/// The first binding of `key` is at index `j`: then lookup returns its value
/// and adding replaces exactly that binding.
proof fn lemma_obj_add_at_index(
    fields: Seq<(Seq<char>, JsonModel)>,
    key: Seq<char>,
    value: JsonModel,
    j: int,
)
    requires
        0 <= j < fields.len(),
        fields[j].0 == key,
        forall|k: int| 0 <= k < j ==> fields[k].0 != key,
    ensures
        spec_lookup(fields, key) == Some(fields[j].1),
        spec_obj_add(fields, key, value) =~~= fields.update(j, (key, value)),
    decreases j,
{
    if j == 0 {
        assert(spec_obj_add(fields, key, value) =~~= seq![(key, value)] + fields.drop_first());
        assert(seq![(key, value)] + fields.drop_first() =~~= fields.update(0, (key, value)));
    } else {
        lemma_obj_add_at_index(fields.drop_first(), key, value, j - 1);
        assert(fields.drop_first()[j - 1] == fields[j]);
        assert(spec_obj_add(fields, key, value) =~~= seq![fields[0]] + fields.drop_first().update(
            j - 1,
            (key, value),
        ));
        assert(seq![fields[0]] + fields.drop_first().update(j - 1, (key, value)) =~~= fields.update(
            j,
            (key, value),
        ));
    }
}

/// `key` is bound nowhere: then lookup fails and adding appends a binding.
proof fn lemma_obj_add_absent(fields: Seq<(Seq<char>, JsonModel)>, key: Seq<char>, value: JsonModel)
    requires
        forall|k: int| 0 <= k < fields.len() ==> fields[k].0 != key,
    ensures
        spec_lookup(fields, key) is None,
        spec_obj_add(fields, key, value) =~~= fields.push((key, value)),
    decreases fields.len(),
{
    if fields.len() > 0 {
        lemma_obj_add_absent(fields.drop_first(), key, value);
        assert(spec_obj_add(fields, key, value) =~~= seq![fields[0]] + fields.drop_first().push(
            (key, value),
        ));
        assert(seq![fields[0]] + fields.drop_first().push((key, value)) =~~= fields.push(
            (key, value),
        ));
    }
}

/// Adds `value` at the path `segs[i..]` below `doc`.
fn add_at(doc: JsonValue, segs: &Vec<String>, i: usize, value: JsonValue) -> (r: Result<
    JsonValue,
    PatchError,
>)
    requires
        1 <= i < segs@.len(),
    ensures
        match r {
            Ok(d) => spec_add(json_model(doc), views_of(segs@), i as int, json_model(value))
                == Some(json_model(d)),
            Err(_) => spec_add(json_model(doc), views_of(segs@), i as int, json_model(value))
                is None,
        },
    decreases segs@.len() - i,
{
    let ghost doc_model = json_model(doc);
    let ghost seg_views = views_of(segs@);
    match doc {
        JsonValue::Object(mut fields) => {
            let ghost model_fields = doc_model->Object_0;
            proof {
                lemma_json_fields_model(fields@);
            }
            let idx = find_field(&fields, segs[i].as_str());
            if i == segs.len() - 1 {
                match idx {
                    Some(j) => {
                        proof {
                            lemma_obj_add_at_index(
                                model_fields,
                                seg_views[i as int],
                                json_model(value),
                                j as int,
                            );
                        }
                        let ghost before = fields@;
                        let (k, _old_value) = fields.remove(j);
                        fields.insert(j, (k, value));
                        proof {
                            lemma_json_fields_model(fields@);
                            assert(fields@ =~= before.update(j as int, fields@[j as int]));
                            assert(json_model(JsonValue::Object(fields)) ->Object_0
                                =~~= model_fields.update(
                                j as int,
                                (seg_views[i as int], json_model(fields@[j as int].1)),
                            ));
                        }
                        Ok(JsonValue::Object(fields))
                    },
                    None => {
                        proof {
                            lemma_obj_add_absent(
                                model_fields,
                                seg_views[i as int],
                                json_model(value),
                            );
                        }
                        fields.push((segs[i].clone(), value));
                        proof {
                            lemma_json_fields_model(fields@);
                            assert(json_model(JsonValue::Object(fields)) ->Object_0
                                =~~= model_fields.push(
                                (seg_views[i as int], json_model(fields@[fields@.len() - 1].1)),
                            ));
                        }
                        Ok(JsonValue::Object(fields))
                    },
                }
            } else {
                match idx {
                    Some(j) => {
                        proof {
                            lemma_obj_add_at_index(
                                model_fields,
                                seg_views[i as int],
                                json_model(value),
                                j as int,
                            );
                        }
                        let ghost before = fields@;
                        let (k, child) = fields.remove(j);
                        let ghost child_model = json_model(child);
                        proof {
                            assert(child_model == model_fields[j as int].1);
                            assert(spec_lookup(model_fields, seg_views[i as int]) == Some(
                                child_model,
                            ));
                        }
                        match add_at(child, segs, i + 1, value) {
                            Ok(nc) => {
                                let ghost nc_model = json_model(nc);
                                proof {
                                    lemma_obj_add_at_index(
                                        model_fields,
                                        seg_views[i as int],
                                        nc_model,
                                        j as int,
                                    );
                                }
                                fields.insert(j, (k, nc));
                                proof {
                                    lemma_json_fields_model(fields@);
                                    assert(fields@ =~= before.update(j as int, fields@[j as int]));
                                    assert(json_model(JsonValue::Object(fields)) ->Object_0
                                        =~~= model_fields.update(
                                        j as int,
                                        (seg_views[i as int], nc_model),
                                    ));
                                }
                                Ok(JsonValue::Object(fields))
                            },
                            Err(e) => Err(e),
                        }
                    },
                    None => {
                        proof {
                            lemma_obj_add_absent(
                                model_fields,
                                seg_views[i as int],
                                json_model(value),
                            );
                        }
                        Err(PatchError {})
                    },
                }
            }
        },
        _ => Err(PatchError {}),
    }
}

/// Applies one `add` operation to a document, as [`spec_apply_add`] states.
pub fn apply_add(doc: JsonValue, path: &str, value: JsonValue) -> (r: Result<
    JsonValue,
    PatchError,
>)
    ensures
        match r {
            Ok(d) => spec_apply_add(json_model(doc), path@, json_model(value)) == Some(
                json_model(d),
            ),
            Err(_) => spec_apply_add(json_model(doc), path@, json_model(value)) is None,
        },
{
    if path.is_empty() {
        return Ok(value);
    }
    if path.get_char(0) != '/' {
        return Err(PatchError {});
    }
    let segs = split_char(path, '/');
    proof {
        assert(spec_split(path@, '/') == seq![Seq::<char>::empty()] + spec_split(
            path@.drop_first(),
            '/',
        ));
        crate::text::lemma_split_len(path@.drop_first(), '/');
    }
    add_at(doc, &segs, 1, value)
}

/// Applies the operations in order, as [`spec_apply_patch`] states.
pub fn apply_patch(doc: JsonValue, ops: Vec<PatchOperation>) -> (r: Result<JsonValue, PatchError>)
    ensures
        match r {
            Ok(d) => spec_apply_patch(json_model(doc), op_models(ops@)) == Some(json_model(d)),
            Err(_) => spec_apply_patch(json_model(doc), op_models(ops@)) is None,
        },
{
    let ghost doc_model = json_model(doc);
    let ghost all_ops = op_models(ops@);
    let mut out = doc;
    let mut work = ops;
    loop
        invariant
            doc_model == json_model(doc),
            all_ops == op_models(ops@),
            spec_apply_patch(doc_model, all_ops) == spec_apply_patch(
                json_model(out),
                op_models(work@),
            ),
        decreases work@.len(),
    {
        if work.len() == 0 {
            proof {
                assert(op_models(work@) =~~= Seq::<OpModel>::empty());
            }
            return Ok(out);
        }
        let ghost before_ops = op_models(work@);
        let op = work.remove(0);
        proof {
            assert(op_models(work@) =~~= before_ops.drop_first());
        }
        match op {
            PatchOperation::Add(a) => {
                match apply_add(out, a.path.as_str(), a.value) {
                    Ok(d) => {
                        out = d;
                    },
                    Err(e) => {
                        return Err(e);
                    },
                }
            },
        }
    }
}

} // verus!
