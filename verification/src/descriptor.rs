//! Descriptor documents: a JSON object that describes one example, or a
//! JSON array of such objects.
//!
//! An example is an object with the texts `name` and `description` and
//! the array `apps`. An application is an object with the text `path`,
//! the array of texts `args`, the object of texts `env`, and optionally
//! the text `dir` and the non-negative integer `delay`; an optional field
//! may be left out or be `null`. Fields that are not named here are
//! ignored.

use vstd::prelude::*;
use vstd::string::StringExecFns;
use crate::json::{entries, error_message, field, fields_of, json_of, jsons_of, parse_value, parsed, Json};
use crate::model::{example_views, overlay, texts, AppSpec, AppView, ExampleSpec, ExampleView};

verus! {

/// The complaint about a value that is no object.
pub open spec fn not_an_object() -> Seq<char> {
    "expected an object"@
}

/// The complaint about a required field that is not there.
pub open spec fn missing(key: Seq<char>) -> Seq<char> {
    "missing field `"@ + key + "`"@
}

/// The complaint about a field whose value has the wrong shape.
pub open spec fn invalid(key: Seq<char>) -> Seq<char> {
    "invalid value for field `"@ + key + "`"@
}

/// The text of a required text field.
pub open spec fn text_field(m: Map<Seq<char>, Json>, key: Seq<char>) -> Result<
    Seq<char>,
    Seq<char>,
> {
    if !m.contains_key(key) {
        Err(missing(key))
    } else {
        match m[key] {
            Json::Text(t) => Ok(t),
            _ => Err(invalid(key)),
        }
    }
}

/// The text of an optional text field.
pub open spec fn optional_text_field(m: Map<Seq<char>, Json>, key: Seq<char>) -> Result<
    Option<Seq<char>>,
    Seq<char>,
> {
    if !m.contains_key(key) {
        Ok(None)
    } else {
        match m[key] {
            Json::Null => Ok(None),
            Json::Text(t) => Ok(Some(t)),
            _ => Err(invalid(key)),
        }
    }
}

/// The number of an optional field that holds a non-negative integer.
pub open spec fn optional_count_field(m: Map<Seq<char>, Json>, key: Seq<char>) -> Result<
    Option<u64>,
    Seq<char>,
> {
    if !m.contains_key(key) {
        Ok(None)
    } else {
        match m[key] {
            Json::Null => Ok(None),
            Json::Number(Some(n)) => Ok(Some(n)),
            _ => Err(invalid(key)),
        }
    }
}

/// Every item is a text.
pub open spec fn all_texts(items: Seq<Json>) -> bool {
    forall|i: int| 0 <= i < items.len() ==> (#[trigger] items[i]) is Text
}

/// The texts of a required field that holds an array of texts.
pub open spec fn text_list_field(m: Map<Seq<char>, Json>, key: Seq<char>) -> Result<
    Seq<Seq<char>>,
    Seq<char>,
> {
    if !m.contains_key(key) {
        Err(missing(key))
    } else {
        match m[key] {
            Json::List(items) => if all_texts(items) {
                Ok(items.map_values(|x: Json| x->Text_0))
            } else {
                Err(invalid(key))
            },
            _ => Err(invalid(key)),
        }
    }
}

/// Every value of the map is a text.
pub open spec fn all_text_values(m: Map<Seq<char>, Json>) -> bool {
    forall|k: Seq<char>| m.contains_key(k) ==> (#[trigger] m[k]) is Text
}

/// The map of a required field that holds an object of texts.
pub open spec fn text_map_field(m: Map<Seq<char>, Json>, key: Seq<char>) -> Result<
    Map<Seq<char>, Seq<char>>,
    Seq<char>,
> {
    if !m.contains_key(key) {
        Err(missing(key))
    } else {
        match m[key] {
            Json::Object(inner) => if all_text_values(inner) {
                Ok(Map::new(|k: Seq<char>| inner.contains_key(k), |k: Seq<char>| inner[k]->Text_0))
            } else {
                Err(invalid(key))
            },
            _ => Err(invalid(key)),
        }
    }
}

/// The application that `j` describes, or the complaint about the first
/// field, in the order `path`, `dir`, `args`, `env`, `delay`, that is
/// missing or has the wrong shape.
pub open spec fn app_of(j: Json) -> Result<AppView, Seq<char>> {
    match j {
        Json::Object(m) => {
            let path = text_field(m, "path"@);
            let dir = optional_text_field(m, "dir"@);
            let args = text_list_field(m, "args"@);
            let env = text_map_field(m, "env"@);
            let delay = optional_count_field(m, "delay"@);
            if path is Err {
                Err(path->Err_0)
            } else if dir is Err {
                Err(dir->Err_0)
            } else if args is Err {
                Err(args->Err_0)
            } else if env is Err {
                Err(env->Err_0)
            } else if delay is Err {
                Err(delay->Err_0)
            } else {
                Ok(
                    AppView {
                        path: path->Ok_0,
                        dir: dir->Ok_0,
                        args: args->Ok_0,
                        env: env->Ok_0,
                        delay: delay->Ok_0,
                    },
                )
            }
        },
        _ => Err(not_an_object()),
    }
}

/// The applications that `items` describe, in order, or the complaint
/// about the first item that describes none.
pub open spec fn apps_of(items: Seq<Json>) -> Result<Seq<AppView>, Seq<char>>
    decreases items.len(),
{
    if items.len() == 0 {
        Ok(Seq::empty())
    } else {
        match apps_of(items.drop_last()) {
            Err(e) => Err(e),
            Ok(before) => match app_of(items.last()) {
                Err(e) => Err(e),
                Ok(a) => Ok(before.push(a)),
            },
        }
    }
}

/// The applications of the required field `apps`.
pub open spec fn apps_field(m: Map<Seq<char>, Json>) -> Result<Seq<AppView>, Seq<char>> {
    if !m.contains_key("apps"@) {
        Err(missing("apps"@))
    } else {
        match m["apps"@] {
            Json::List(items) => apps_of(items),
            _ => Err(invalid("apps"@)),
        }
    }
}

/// The example that `j` describes, or the complaint about the first
/// field, in the order `name`, `description`, `apps`, that is missing or
/// has the wrong shape.
pub open spec fn example_of(j: Json) -> Result<ExampleView, Seq<char>> {
    match j {
        Json::Object(m) => {
            let name = text_field(m, "name"@);
            let description = text_field(m, "description"@);
            let apps = apps_field(m);
            if name is Err {
                Err(name->Err_0)
            } else if description is Err {
                Err(description->Err_0)
            } else if apps is Err {
                Err(apps->Err_0)
            } else {
                Ok(
                    ExampleView {
                        name: name->Ok_0,
                        description: description->Ok_0,
                        apps: apps->Ok_0,
                    },
                )
            }
        },
        _ => Err(not_an_object()),
    }
}

/// The examples that `items` describe, in order, or the complaint about
/// the first item that describes none.
pub open spec fn examples_of(items: Seq<Json>) -> Result<Seq<ExampleView>, Seq<char>>
    decreases items.len(),
{
    if items.len() == 0 {
        Ok(Seq::empty())
    } else {
        match examples_of(items.drop_last()) {
            Err(e) => Err(e),
            Ok(before) => match example_of(items.last()) {
                Err(e) => Err(e),
                Ok(x) => Ok(before.push(x)),
            },
        }
    }
}

/// The examples of a document: those of its items if it is an array,
/// else the one example that it describes.
pub open spec fn document_of(j: Json) -> Result<Seq<ExampleView>, Seq<char>> {
    match j {
        Json::List(items) => examples_of(items),
        _ => match example_of(j) {
            Ok(x) => Ok(seq![x]),
            Err(e) => Err(e),
        },
    }
}

/// The examples of a descriptor, given what the JSON parser made of its
/// text: a text that is no JSON yields the parser's message.
pub open spec fn descriptor_of(p: Result<Json, Seq<char>>) -> Result<Seq<ExampleView>, Seq<char>> {
    match p {
        Ok(j) => document_of(j),
        Err(message) => Err(message),
    }
}

/// A document that is a single object yields exactly one example; a
/// document that is an array yields one example for each item, in the
/// order of the array.
pub proof fn lemma_document_count(j: Json)
    requires
        document_of(j) is Ok,
    ensures
        !(j is List) ==> document_of(j)->Ok_0 == seq![example_of(j)->Ok_0],
        j is List ==> document_of(j)->Ok_0.len() == j->List_0.len(),
        j is List ==> forall|i: int|
            0 <= i < j->List_0.len() ==> example_of(#[trigger] j->List_0[i]) == Ok::<
                ExampleView,
                Seq<char>,
            >(document_of(j)->Ok_0[i]),
{
    if j is List {
        lemma_examples_of(j->List_0);
    }
}

/// Where every item describes an example, the examples are those of the
/// items, in order.
pub proof fn lemma_examples_of(items: Seq<Json>)
    requires
        examples_of(items) is Ok,
    ensures
        examples_of(items)->Ok_0.len() == items.len(),
        forall|i: int|
            0 <= i < items.len() ==> example_of(#[trigger] items[i]) == Ok::<
                ExampleView,
                Seq<char>,
            >(examples_of(items)->Ok_0[i]),
    decreases items.len(),
{
    if items.len() > 0 {
        lemma_examples_of(items.drop_last());
        assert forall|i: int| 0 <= i < items.len() implies example_of(#[trigger] items[i]) == Ok::<
            ExampleView,
            Seq<char>,
        >(examples_of(items)->Ok_0[i]) by {
            if i < items.len() - 1 {
                assert(items.drop_last()[i] == items[i]);
            }
        }
    }
}

/// Where every item describes an application, the applications are
/// those of the items, in order.
pub proof fn lemma_apps_of(items: Seq<Json>)
    requires
        apps_of(items) is Ok,
    ensures
        apps_of(items)->Ok_0.len() == items.len(),
        forall|i: int|
            0 <= i < items.len() ==> app_of(#[trigger] items[i]) == Ok::<AppView, Seq<char>>(
                apps_of(items)->Ok_0[i],
            ),
    decreases items.len(),
{
    if items.len() > 0 {
        lemma_apps_of(items.drop_last());
        assert forall|i: int| 0 <= i < items.len() implies app_of(#[trigger] items[i]) == Ok::<
            AppView,
            Seq<char>,
        >(apps_of(items)->Ok_0[i]) by {
            if i < items.len() - 1 {
                assert(items.drop_last()[i] == items[i]);
            }
        }
    }
}

proof fn lemma_apps_error_stays(items: Seq<Json>, upto: int)
    requires
        0 <= upto <= items.len(),
        apps_of(items.take(upto)) is Err,
    ensures
        apps_of(items) == apps_of(items.take(upto)),
    decreases items.len() - upto,
{
    if upto < items.len() {
        assert(items.take(upto + 1).drop_last() == items.take(upto));
        lemma_apps_error_stays(items, upto + 1);
    } else {
        assert(items.take(upto) == items);
    }
}

proof fn lemma_examples_error_stays(items: Seq<Json>, upto: int)
    requires
        0 <= upto <= items.len(),
        examples_of(items.take(upto)) is Err,
    ensures
        examples_of(items) == examples_of(items.take(upto)),
    decreases items.len() - upto,
{
    if upto < items.len() {
        assert(items.take(upto + 1).drop_last() == items.take(upto));
        lemma_examples_error_stays(items, upto + 1);
    } else {
        assert(items.take(upto) == items);
    }
}

/// The overlay of pairs with distinct keys holds each pair.
proof fn lemma_overlay_distinct(pairs: Seq<(String, String)>)
    requires
        forall|i: int, j: int| 0 <= i < j < pairs.len() ==> pairs[i].0@ != pairs[j].0@,
    ensures
        forall|i: int|
            0 <= i < pairs.len() ==> overlay(pairs).contains_key((#[trigger] pairs[i]).0@)
                && overlay(pairs)[pairs[i].0@] == pairs[i].1@,
        forall|k: Seq<char>| #[trigger]
            overlay(pairs).contains_key(k) ==> exists|i: int|
                0 <= i < pairs.len() && (#[trigger] pairs[i]).0@ == k,
    decreases pairs.len(),
{
    if pairs.len() > 0 {
        let before = pairs.drop_last();
        lemma_overlay_distinct(before);
        assert forall|i: int| 0 <= i < pairs.len() implies overlay(pairs).contains_key(
            (#[trigger] pairs[i]).0@,
        ) && overlay(pairs)[pairs[i].0@] == pairs[i].1@ by {
            if i < pairs.len() - 1 {
                assert(before[i] == pairs[i]);
                assert(pairs[i].0@ != pairs[pairs.len() - 1].0@);
            }
        }
        assert forall|k: Seq<char>| #[trigger] overlay(pairs).contains_key(k) implies exists|i: int|
            0 <= i < pairs.len() && (#[trigger] pairs[i]).0@ == k by {
            if k == pairs.last().0@ {
                assert(pairs[pairs.len() - 1].0@ == k);
            } else {
                assert(overlay(before).contains_key(k));
                let i = choose|i: int| 0 <= i < before.len() && (#[trigger] before[i]).0@ == k;
                assert(pairs[i].0@ == k);
            }
        }
    }
}

fn complaint(head: &str, key: &str) -> (r: String)
    ensures
        r@ == head@ + key@ + "`"@,
{
    let mut r = String::from_str(head);
    r.append(key);
    r.append("`");
    r
}

fn decode_text(m: &serde_json::Map<String, serde_json::Value>, key: &str) -> (r: Result<
    String,
    String,
>)
    ensures
        match r {
            Ok(t) => text_field(fields_of(m), key@) == Ok::<Seq<char>, Seq<char>>(t@),
            Err(e) => text_field(fields_of(m), key@) == Err::<Seq<char>, Seq<char>>(e@),
        },
{
    match field(m, key) {
        None => Err(complaint("missing field `", key)),
        Some(v) => match v.as_str() {
            Some(t) => Ok(String::from_str(t)),
            None => Err(complaint("invalid value for field `", key)),
        },
    }
}

fn decode_optional_text(m: &serde_json::Map<String, serde_json::Value>, key: &str) -> (r: Result<
    Option<String>,
    String,
>)
    ensures
        match r {
            Ok(Some(t)) => optional_text_field(fields_of(m), key@) == Ok::<
                Option<Seq<char>>,
                Seq<char>,
            >(Some(t@)),
            Ok(None) => optional_text_field(fields_of(m), key@) == Ok::<
                Option<Seq<char>>,
                Seq<char>,
            >(None),
            Err(e) => optional_text_field(fields_of(m), key@) == Err::<
                Option<Seq<char>>,
                Seq<char>,
            >(e@),
        },
{
    match field(m, key) {
        None => Ok(None),
        Some(v) => if v.is_null() {
            Ok(None)
        } else {
            match v.as_str() {
                Some(t) => Ok(Some(String::from_str(t))),
                None => Err(complaint("invalid value for field `", key)),
            }
        },
    }
}

fn decode_optional_count(m: &serde_json::Map<String, serde_json::Value>, key: &str) -> (r: Result<
    Option<u64>,
    String,
>)
    ensures
        match r {
            Ok(n) => optional_count_field(fields_of(m), key@) == Ok::<Option<u64>, Seq<char>>(n),
            Err(e) => optional_count_field(fields_of(m), key@) == Err::<Option<u64>, Seq<char>>(
                e@,
            ),
        },
{
    match field(m, key) {
        None => Ok(None),
        Some(v) => if v.is_null() {
            Ok(None)
        } else {
            match v.as_u64() {
                Some(n) => Ok(Some(n)),
                None => Err(complaint("invalid value for field `", key)),
            }
        },
    }
}

fn decode_text_list(m: &serde_json::Map<String, serde_json::Value>, key: &str) -> (r: Result<
    Vec<String>,
    String,
>)
    ensures
        match r {
            Ok(list) => text_list_field(fields_of(m), key@) == Ok::<Seq<Seq<char>>, Seq<char>>(
                texts(list@),
            ),
            Err(e) => text_list_field(fields_of(m), key@) == Err::<Seq<Seq<char>>, Seq<char>>(e@),
        },
{
    let v = match field(m, key) {
        None => { return Err(complaint("missing field `", key)); },
        Some(v) => v,
    };
    let items = match v.as_array() {
        None => { return Err(complaint("invalid value for field `", key)); },
        Some(items) => items,
    };
    let ghost models = jsons_of(items@);
    let mut list: Vec<String> = Vec::new();
    let mut i: usize = 0;
    while i < items.len()
        invariant
            i <= items.len(),
            models == jsons_of(items@),
            fields_of(m).contains_key(key@),
            fields_of(m)[key@] == Json::List(models),
            list.len() == i,
            forall|k: int| 0 <= k < i ==> models[k] == Json::Text((#[trigger] list@[k])@),
        decreases items.len() - i,
    {
        assert(models[i as int] == json_of(&items@[i as int]));
        match items[i].as_str() {
            Some(t) => {
                list.push(String::from_str(t));
            },
            None => {
                assert(!(models[i as int] is Text));
                return Err(complaint("invalid value for field `", key));
            },
        }
        i += 1;
    }
    assert forall|k: int| 0 <= k < models.len() implies (#[trigger] models[k]) is Text by {
        assert(models[k] == Json::Text(list@[k]@));
    }
    assert(texts(list@) =~= models.map_values(|x: Json| x->Text_0)) by {
        assert forall|k: int| 0 <= k < list.len() implies texts(list@)[k] == models[k]->Text_0 by {
            assert(models[k] == Json::Text(list@[k]@));
        }
    }
    Ok(list)
}

fn decode_text_map(m: &serde_json::Map<String, serde_json::Value>, key: &str) -> (r: Result<
    Vec<(String, String)>,
    String,
>)
    ensures
        match r {
            Ok(pairs) => text_map_field(fields_of(m), key@) == Ok::<
                Map<Seq<char>, Seq<char>>,
                Seq<char>,
            >(overlay(pairs@)),
            Err(e) => text_map_field(fields_of(m), key@) == Err::<
                Map<Seq<char>, Seq<char>>,
                Seq<char>,
            >(e@),
        },
{
    let v = match field(m, key) {
        None => { return Err(complaint("missing field `", key)); },
        Some(v) => v,
    };
    let inner = match v.as_object() {
        None => { return Err(complaint("invalid value for field `", key)); },
        Some(inner) => inner,
    };
    let found = entries(inner);
    let ghost model = fields_of(inner);
    assert(forall|a: int, b: int| 0 <= a < b < found.len() ==> (#[trigger] found[a]).0@ != (
    #[trigger] found[b]).0@);
    let mut pairs: Vec<(String, String)> = Vec::new();
    let mut i: usize = 0;
    while i < found.len()
        invariant
            i <= found.len(),
            pairs.len() == i,
            model == fields_of(inner),
            fields_of(m).contains_key(key@),
            fields_of(m)[key@] == Json::Object(model),
            forall|k: int|
                0 <= k < found.len() ==> model.contains_key((#[trigger] found[k]).0@)
                    && model[found[k].0@] == json_of(found[k].1),
            forall|k: int|
                0 <= k < i ==> (#[trigger] pairs@[k]).0@ == found@[k].0@ && model[found@[k].0@]
                    == Json::Text(pairs@[k].1@),
        decreases found.len() - i,
    {
        let name: &String = found[i].0;
        let value: &serde_json::Value = found[i].1;
        assert(model.contains_key(found@[i as int].0@));
        match value.as_str() {
            Some(t) => {
                pairs.push((name.clone(), String::from_str(t)));
            },
            None => {
                assert(!(model[found@[i as int].0@] is Text));
                return Err(complaint("invalid value for field `", key));
            },
        }
        i += 1;
    }
    proof {
        assert forall|a: int, b: int| 0 <= a < b < pairs.len() implies pairs@[a].0@
            != pairs@[b].0@ by {
            assert(pairs@[a].0@ == found[a].0@);
            assert(pairs@[b].0@ == found[b].0@);
            assert(found[a].0@ != found[b].0@);
        }
        lemma_overlay_distinct(pairs@);
        assert forall|k: Seq<char>| model.contains_key(k) implies (#[trigger] model[k]) is Text by {
            let at = choose|at: int| 0 <= at < found.len() && (#[trigger] found[at]).0@ == k;
            assert(pairs@[at].0@ == k);
        }
        let wanted = Map::new(
            |k: Seq<char>| model.contains_key(k),
            |k: Seq<char>| model[k]->Text_0,
        );
        let got = overlay(pairs@);
        assert forall|k: Seq<char>| #[trigger] got.dom().contains(k) == wanted.dom().contains(
            k,
        ) by {
            if model.contains_key(k) {
                let at = choose|at: int| 0 <= at < found.len() && (#[trigger] found[at]).0@ == k;
                assert(pairs@[at].0@ == k);
            }
            if got.contains_key(k) {
                let at = choose|at: int| 0 <= at < pairs.len() && (#[trigger] pairs@[at]).0@ == k;
                assert(found[at].0@ == k);
            }
        }
        assert forall|k: Seq<char>| #[trigger] got.dom().contains(k) implies got[k] == wanted[k] by {
            let at = choose|at: int| 0 <= at < pairs.len() && (#[trigger] pairs@[at]).0@ == k;
            assert(found[at].0@ == k);
            assert(got[pairs@[at].0@] == pairs@[at].1@);
        }
        assert(overlay(pairs@) =~= wanted);
    }
    Ok(pairs)
}

/// Reads one application from a JSON value.
pub fn decode_app(v: &serde_json::Value) -> (r: Result<AppSpec, String>)
    ensures
        match r {
            Ok(app) => app_of(json_of(v)) == Ok::<AppView, Seq<char>>(app@),
            Err(e) => app_of(json_of(v)) == Err::<AppView, Seq<char>>(e@),
        },
{
    let m = match v.as_object() {
        None => { return Err(String::from_str("expected an object")); },
        Some(m) => m,
    };
    let path = match decode_text(m, "path") {
        Err(e) => { return Err(e); },
        Ok(path) => path,
    };
    let dir = match decode_optional_text(m, "dir") {
        Err(e) => { return Err(e); },
        Ok(dir) => dir,
    };
    let args = match decode_text_list(m, "args") {
        Err(e) => { return Err(e); },
        Ok(args) => args,
    };
    let env = match decode_text_map(m, "env") {
        Err(e) => { return Err(e); },
        Ok(env) => env,
    };
    let delay = match decode_optional_count(m, "delay") {
        Err(e) => { return Err(e); },
        Ok(delay) => delay,
    };
    Ok(AppSpec { path, dir, args, env, delay })
}

fn decode_apps(m: &serde_json::Map<String, serde_json::Value>) -> (r: Result<Vec<AppSpec>, String>)
    ensures
        match r {
            Ok(apps) => apps_field(fields_of(m)) == Ok::<Seq<AppView>, Seq<char>>(
                apps@.map_values(|a: AppSpec| a@),
            ),
            Err(e) => apps_field(fields_of(m)) == Err::<Seq<AppView>, Seq<char>>(e@),
        },
{
    let v = match field(m, "apps") {
        None => { return Err(complaint("missing field `", "apps")); },
        Some(v) => v,
    };
    let items = match v.as_array() {
        None => { return Err(complaint("invalid value for field `", "apps")); },
        Some(items) => items,
    };
    let ghost models = jsons_of(items@);
    let mut apps: Vec<AppSpec> = Vec::new();
    let mut i: usize = 0;
    assert(models.take(0) =~= Seq::<Json>::empty());
    assert(apps@.map_values(|a: AppSpec| a@) =~= Seq::<AppView>::empty());
    while i < items.len()
        invariant
            i <= items.len(),
            models == jsons_of(items@),
            fields_of(m).contains_key("apps"@),
            fields_of(m)["apps"@] == Json::List(models),
            apps_of(models.take(i as int)) == Ok::<Seq<AppView>, Seq<char>>(
                apps@.map_values(|a: AppSpec| a@),
            ),
        decreases items.len() - i,
    {
        assert(models.take(i + 1).drop_last() == models.take(i as int));
        assert(models.take(i + 1).last() == json_of(&items@[i as int]));
        match decode_app(&items[i]) {
            Ok(app) => {
                let ghost before = apps@.map_values(|a: AppSpec| a@);
                apps.push(app);
                assert(apps@.map_values(|a: AppSpec| a@) =~= before.push(app@));
            },
            Err(e) => {
                proof {
                    lemma_apps_error_stays(models, i + 1);
                }
                return Err(e);
            },
        }
        i += 1;
    }
    assert(models.take(i as int) == models);
    Ok(apps)
}

/// Reads one example from a JSON value.
pub fn decode_example(v: &serde_json::Value) -> (r: Result<ExampleSpec, String>)
    ensures
        match r {
            Ok(example) => example_of(json_of(v)) == Ok::<ExampleView, Seq<char>>(example@),
            Err(e) => example_of(json_of(v)) == Err::<ExampleView, Seq<char>>(e@),
        },
{
    let m = match v.as_object() {
        None => { return Err(String::from_str("expected an object")); },
        Some(m) => m,
    };
    let name = match decode_text(m, "name") {
        Err(e) => { return Err(e); },
        Ok(name) => name,
    };
    let description = match decode_text(m, "description") {
        Err(e) => { return Err(e); },
        Ok(description) => description,
    };
    let apps = match decode_apps(m) {
        Err(e) => { return Err(e); },
        Ok(apps) => apps,
    };
    Ok(ExampleSpec { name, description, apps })
}

/// Reads the examples of a document: those of its items, in order, if
/// the value is an array, else the one example that the value describes.
/// Fails with the complaint about the first item that describes none.
pub fn decode_document(v: &serde_json::Value) -> (r: Result<Vec<ExampleSpec>, String>)
    ensures
        match r {
            Ok(examples) => document_of(json_of(v)) == Ok::<Seq<ExampleView>, Seq<char>>(
                example_views(examples@),
            ),
            Err(e) => document_of(json_of(v)) == Err::<Seq<ExampleView>, Seq<char>>(e@),
        },
{
    let mut examples: Vec<ExampleSpec> = Vec::new();
    match v.as_array() {
        None => {
            match decode_example(v) {
                Ok(example) => {
                    examples.push(example);
                    assert(example_views(examples@) =~= seq![example@]);
                    Ok(examples)
                },
                Err(e) => Err(e),
            }
        },
        Some(items) => {
            let ghost models = jsons_of(items@);
            let mut i: usize = 0;
            assert(models.take(0) =~= Seq::<Json>::empty());
            assert(example_views(examples@) =~= Seq::<ExampleView>::empty());
            while i < items.len()
                invariant
                    i <= items.len(),
                    models == jsons_of(items@),
                    json_of(v) == Json::List(models),
                    examples_of(models.take(i as int)) == Ok::<Seq<ExampleView>, Seq<char>>(
                        example_views(examples@),
                    ),
                decreases items.len() - i,
            {
                assert(models.take(i + 1).drop_last() == models.take(i as int));
                assert(models.take(i + 1).last() == json_of(&items@[i as int]));
                match decode_example(&items[i]) {
                    Ok(example) => {
                        let ghost before = example_views(examples@);
                        examples.push(example);
                        assert(example_views(examples@) =~= before.push(example@));
                    },
                    Err(e) => {
                        proof {
                            lemma_examples_error_stays(models, i + 1);
                        }
                        return Err(e);
                    },
                }
                i += 1;
            }
            assert(models.take(i as int) == models);
            Ok(examples)
        },
    }
}

/// Reads the examples of a descriptor from its text. Fails with the
/// parser's message if the text is no JSON, and with a complaint if the
/// JSON does not describe examples.
pub fn parse_descriptor(text: &str) -> (r: Result<Vec<ExampleSpec>, String>)
    ensures
        match r {
            Ok(examples) => descriptor_of(parsed(text@)) == Ok::<Seq<ExampleView>, Seq<char>>(
                example_views(examples@),
            ),
            Err(e) => descriptor_of(parsed(text@)) == Err::<Seq<ExampleView>, Seq<char>>(e@),
        },
{
    match parse_value(text) {
        Ok(v) => decode_document(&v),
        Err(e) => Err(error_message(&e)),
    }
}

} // verus!
