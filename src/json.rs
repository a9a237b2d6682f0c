use vstd::prelude::*;

verus! {

broadcast use vstd::std_specs::vec::axiom_vec_index_decreases;

/// The mathematical form of a JSON value: the model that contracts speak of.
pub enum Json {
    Null,
    Bool(bool),
    Number(Seq<char>),
    String(Seq<char>),
    Array(Seq<Json>),
    Object(Seq<(Seq<char>, Json)>),
}

/// A JSON tree. A number is kept as its decimal text; an object keeps its
/// entries in order.
#[derive(Debug)]
pub enum JsonValue {
    Null,
    Bool(bool),
    Number(String),
    String(String),
    Array(Vec<JsonValue>),
    Object(Vec<(String, JsonValue)>),
}

/// The model of a JSON tree.
pub open spec fn model(v: JsonValue) -> Json
    decreases v,
{
    match v {
        JsonValue::Null => Json::Null,
        JsonValue::Bool(b) => Json::Bool(b),
        JsonValue::Number(n) => Json::Number(n@),
        JsonValue::String(s) => Json::String(s@),
        JsonValue::Array(xs) => Json::Array(
            Seq::new(
                xs.len() as nat,
                |i: int|
                    if 0 <= i < xs.len() {
                        model(xs[i])
                    } else {
                        Json::Null
                    },
            ),
        ),
        JsonValue::Object(m) => Json::Object(
            Seq::new(
                m.len() as nat,
                |i: int|
                    if 0 <= i < m.len() {
                        (m[i].0@, model(m[i].1))
                    } else {
                        (Seq::empty(), Json::Null)
                    },
            ),
        ),
    }
}

impl View for JsonValue {
    type V = Json;

    open spec fn view(&self) -> Json {
        model(*self)
    }
}

impl Clone for JsonValue {
    fn clone(&self) -> (r: Self)
        ensures
            r@ == self@,
        decreases self,
    {
        match self {
            JsonValue::Null => JsonValue::Null,
            JsonValue::Bool(b) => JsonValue::Bool(*b),
            JsonValue::Number(n) => JsonValue::Number(n.clone()),
            JsonValue::String(s) => JsonValue::String(s.clone()),
            JsonValue::Array(xs) => {
                let mut out: Vec<JsonValue> = Vec::new();
                let mut i: usize = 0;
                while i < xs.len()
                    invariant
                        *self == JsonValue::Array(*xs),
                        i <= xs.len(),
                        out.len() == i,
                        forall|j: int| 0 <= j < i ==> model(#[trigger] out[j]) == model(xs[j]),
                    decreases xs.len() - i,
                {
                    proof {
                        assert(decreases_to!(*self => (*self)->Array_0));
                        assert(decreases_to!(*xs => xs[i as int]));
                    }
                    out.push(xs[i].clone());
                    i = i + 1;
                }
                let r = JsonValue::Array(out);
                proof {
                    assert(model(r) == model(*self)) by {
                        if let Json::Array(a) = model(*self) {
                            if let Json::Array(b) = model(r) {
                                assert(a =~= b);
                            }
                        }
                    }
                }
                r
            },
            JsonValue::Object(m) => {
                let mut out: Vec<(String, JsonValue)> = Vec::new();
                let mut i: usize = 0;
                while i < m.len()
                    invariant
                        *self == JsonValue::Object(*m),
                        i <= m.len(),
                        out.len() == i,
                        forall|j: int|
                            0 <= j < i ==> (#[trigger] out[j]).0@ == m[j].0@ && model(out[j].1)
                                == model(m[j].1),
                    decreases m.len() - i,
                {
                    proof {
                        assert(decreases_to!(*self => (*self)->Object_0));
                        assert(decreases_to!(*m => m[i as int]));
                        assert(decreases_to!(m[i as int] => m[i as int].1));
                    }
                    let e = m[i].1.clone();
                    out.push((m[i].0.clone(), e));
                    i = i + 1;
                }
                let r = JsonValue::Object(out);
                proof {
                    assert(model(r) == model(*self)) by {
                        if let Json::Object(a) = model(*self) {
                            if let Json::Object(b) = model(r) {
                                assert(a =~= b);
                            }
                        }
                    }
                }
                r
            },
        }
    }
}

/// The keys whose values are never kept: `password`, `token` and `secret`.
pub open spec fn is_sensitive_key(k: Seq<char>) -> bool {
    k == "password"@ || k == "token"@ || k == "secret"@
}

/// The text that stands in place of a sensitive value.
pub open spec fn placeholder() -> Seq<char> {
    "***REDACTED***"@
}

/// The tree with the value of every sensitive key, at any depth, replaced by
/// the placeholder string; all else is kept as it is.
pub open spec fn redacted(j: Json) -> Json
    decreases j,
{
    match j {
        Json::Array(xs) => Json::Array(
            Seq::new(
                xs.len(),
                |i: int|
                    if 0 <= i < xs.len() {
                        redacted(xs[i])
                    } else {
                        Json::Null
                    },
            ),
        ),
        Json::Object(m) => Json::Object(
            Seq::new(
                m.len(),
                |i: int|
                    if 0 <= i < m.len() {
                        if is_sensitive_key(m[i].0) {
                            (m[i].0, Json::String(placeholder()))
                        } else {
                            (m[i].0, redacted(m[i].1))
                        }
                    } else {
                        (Seq::empty(), Json::Null)
                    },
            ),
        ),
        _ => j,
    }
}

/// True when every sensitive key, at any depth, holds the placeholder string.
pub open spec fn free_of_secrets(j: Json) -> bool
    decreases j,
{
    match j {
        Json::Array(xs) => forall|i: int| 0 <= i < xs.len() ==> free_of_secrets(#[trigger] xs[i]),
        Json::Object(m) => forall|i: int|
            0 <= i < m.len() ==> if is_sensitive_key(#[trigger] m[i].0) {
                m[i].1 == Json::String(placeholder())
            } else {
                free_of_secrets(m[i].1)
            },
        _ => true,
    }
}

fn same_text(k: &str, w: &str) -> (r: bool)
    ensures
        r == (k@ == w@),
{
    let n = k.unicode_len();
    if n != w.unicode_len() {
        return false;
    }
    let mut i: usize = 0;
    while i < n
        invariant
            n as nat == k@.len(),
            n as nat == w@.len(),
            i <= n,
            forall|j: int| 0 <= j < i ==> k@[j] == w@[j],
        decreases n - i,
    {
        if k.get_char(i) != w.get_char(i) {
            return false;
        }
        i = i + 1;
    }
    proof {
        assert(k@ =~= w@);
    }
    true
}

fn sensitive(k: &str) -> (r: bool)
    ensures
        r == is_sensitive_key(k@),
{
    same_text(k, "password") || same_text(k, "token") || same_text(k, "secret")
}

/// Copies a tree, replacing the value of every `password`, `token` or `secret`
/// key at any depth by the placeholder string.
pub fn redact_value(v: &JsonValue) -> (r: JsonValue)
    ensures
        r@ == redacted(v@),
    decreases v,
{
    match v {
        JsonValue::Null => JsonValue::Null,
        JsonValue::Bool(b) => JsonValue::Bool(*b),
        JsonValue::Number(n) => JsonValue::Number(n.clone()),
        JsonValue::String(s) => JsonValue::String(s.clone()),
        JsonValue::Array(xs) => {
            let mut out: Vec<JsonValue> = Vec::new();
            let mut i: usize = 0;
            while i < xs.len()
                invariant
                    *v == JsonValue::Array(*xs),
                    i <= xs.len(),
                    out.len() == i,
                    forall|j: int| 0 <= j < i ==> model(#[trigger] out[j]) == redacted(model(xs[j])),
                decreases xs.len() - i,
            {
                proof {
                    assert(decreases_to!(*v => (*v)->Array_0));
                    assert(decreases_to!(*xs => xs[i as int]));
                    assert(decreases_to!(*v => xs[i as int]));
                }
                let e = redact_value(&xs[i]);
                out.push(e);
                i = i + 1;
            }
            let r = JsonValue::Array(out);
            proof {
                assert(model(r) == redacted(model(*v))) by {
                    if let Json::Array(a) = redacted(model(*v)) {
                        if let Json::Array(b) = model(r) {
                            assert(a =~= b);
                        }
                    }
                }
            }
            r
        },
        JsonValue::Object(m) => {
            let mut out: Vec<(String, JsonValue)> = Vec::new();
            let mut i: usize = 0;
            while i < m.len()
                invariant
                    *v == JsonValue::Object(*m),
                    i <= m.len(),
                    out.len() == i,
                    forall|j: int|
                        0 <= j < i ==> (#[trigger] out[j]).0@ == m[j].0@ && model(out[j].1) == (
                        if is_sensitive_key(m[j].0@) {
                            Json::String(placeholder())
                        } else {
                            redacted(model(m[j].1))
                        }),
                decreases m.len() - i,
            {
                let key = m[i].0.clone();
                let e = if sensitive(key.as_str()) {
                    JsonValue::String(String::from_str("***REDACTED***"))
                } else {
                    proof {
                        assert(decreases_to!(*v => (*v)->Object_0));
                        assert(decreases_to!(*m => m[i as int]));
                        assert(decreases_to!(m[i as int] => m[i as int].1));
                        assert(decreases_to!(*v => m[i as int].1));
                    }
                    redact_value(&m[i].1)
                };
                out.push((key, e));
                i = i + 1;
            }
            let r = JsonValue::Object(out);
            proof {
                assert(model(r) == redacted(model(*v))) by {
                    if let Json::Object(a) = redacted(model(*v)) {
                        if let Json::Object(b) = model(r) {
                            assert(a =~= b);
                        }
                    }
                }
            }
            r
        },
    }
}

/// Redaction is idempotent: redacting a redacted tree changes nothing.
pub proof fn lemma_redact_idempotent(j: Json)
    ensures
        redacted(redacted(j)) == redacted(j),
    decreases j,
{
    match j {
        Json::Array(xs) => {
            assert forall|i: int| 0 <= i < xs.len() implies redacted(redacted(xs[i])) == redacted(
                xs[i],
            ) by {
                lemma_redact_idempotent(xs[i]);
            }
            if let Json::Array(a) = redacted(redacted(j)) {
                if let Json::Array(b) = redacted(j) {
                    assert(a =~= b);
                }
            }
        },
        Json::Object(m) => {
            assert forall|i: int| 0 <= i < m.len() implies redacted(redacted(m[i].1)) == redacted(
                m[i].1,
            ) by {
                lemma_redact_idempotent(m[i].1);
            }
            if let Json::Object(a) = redacted(redacted(j)) {
                if let Json::Object(b) = redacted(j) {
                    assert(a =~= b);
                }
            }
        },
        _ => {},
    }
}

/// After redaction no sensitive key, at any depth, holds anything but the
/// placeholder string.
pub proof fn lemma_redact_removes_secrets(j: Json)
    ensures
        free_of_secrets(redacted(j)),
    decreases j,
{
    match j {
        Json::Array(xs) => {
            assert forall|i: int| 0 <= i < xs.len() implies free_of_secrets(redacted(xs[i])) by {
                lemma_redact_removes_secrets(xs[i]);
            }
        },
        Json::Object(m) => {
            assert forall|i: int| 0 <= i < m.len() implies free_of_secrets(redacted(m[i].1)) by {
                lemma_redact_removes_secrets(m[i].1);
            }
        },
        _ => {},
    }
}

/// Redacting an object keeps its keys in place, puts the placeholder under each
/// sensitive key, and leaves a scalar under any other key exactly as it was.
pub proof fn lemma_redact_object_entries(m: Seq<(Seq<char>, Json)>)
    ensures
        redacted(Json::Object(m)) is Object,
        redacted(Json::Object(m))->Object_0.len() == m.len(),
        forall|i: int|
            0 <= i < m.len() ==> {
                let e = #[trigger] redacted(Json::Object(m))->Object_0[i];
                &&& e.0 == m[i].0
                &&& is_sensitive_key(m[i].0) ==> e.1 == Json::String(placeholder())
                &&& !is_sensitive_key(m[i].0) ==> e.1 == redacted(m[i].1)
                &&& !is_sensitive_key(m[i].0) && !(m[i].1 is Array) && !(m[i].1 is Object)
                    ==> e.1 == m[i].1
            },
{
}

} // verus!
