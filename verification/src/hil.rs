//! Human-in-the-loop interaction items.
//!
//! Plugins (and the model, through the `ask` tool) queue items that need a
//! user's answer; the host records answers between runs.
use vstd::prelude::*;
use crate::hooks::CompletionAction;
use crate::json::{Json, JsonV};
use crate::text::{chars_eq, chars_of, owned, push_chars, push_str, str_eq, string_from_chars};

verus! {

/// A choice of a selection prompt.
pub struct SelectOption {
    pub label: String,
    pub value: Json,
    pub description: Option<String>,
}

/// The kinds of user-facing prompt.
pub enum HilType {
    /// Free-text input.
    Question { placeholder: Option<String> },
    /// Yes / No.
    Confirm { default: Option<bool> },
    /// Choose one or more from a list.
    Select { options: Vec<SelectOption>, multiple: bool },
    /// Informational (no response expected).
    Message,
    /// Tabular data.
    Table { headers: Vec<String>, rows: Vec<Vec<String>> },
    /// Ordered or unordered list.
    List { items: Vec<String>, ordered: bool },
}

/// A single user-interaction item.
pub struct HilItem {
    /// Identifier, unique within a run.
    pub id: String,
    /// The kind of interaction.
    pub kind: HilType,
    /// Human-readable prompt text.
    pub message: String,
    /// The user's answer, once recorded.
    pub response: Option<Json>,
}

/// View of an item: identifier, prompt text, answer.
pub struct ItemV {
    pub id: Seq<char>,
    pub message: Seq<char>,
    pub response: Option<JsonV>,
}

impl View for HilItem {
    type V = ItemV;

    open spec fn view(&self) -> ItemV {
        ItemV {
            id: self.id@,
            message: self.message@,
            response: match self.response {
                Some(j) => Some(j@),
                None => None,
            },
        }
    }
}

impl SelectOption {
    /// An option with no description.
    pub fn new(label: &str, value: Json) -> (o: SelectOption)
        ensures
            o.label@ == label@,
            o.value == value,
            o.description is None,
    {
        SelectOption { label: owned(label), value, description: None }
    }

    /// The same option with a description.
    pub fn with_description(self, description: &str) -> (o: SelectOption)
        ensures
            o.label == self.label,
            o.value == self.value,
            o.description matches Some(d) && d@ == description@,
    {
        SelectOption { description: Some(owned(description)), ..self }
    }
}

/// Interaction items shared by plugins and the host, in the order they
/// were queued.
pub struct HilState {
    items: Vec<HilItem>,
}

pub open spec fn items_view(v: Seq<HilItem>) -> Seq<ItemV> {
    v.map_values(|i: HilItem| i@)
}

/// Index of the first item satisfying `p`, if any.
pub open spec fn first_where(s: Seq<ItemV>, p: spec_fn(ItemV) -> bool) -> Option<int> {
    if exists|i: int| 0 <= i < s.len() && p(s[i]) {
        Some(choose|i: int| 0 <= i < s.len() && p(s[i]) && forall|j: int| 0 <= j < i ==> !p(s[j]))
    } else {
        None
    }
}

/// Whether an item has the identifier `id`.
pub open spec fn has_id(id: Seq<char>) -> spec_fn(ItemV) -> bool {
    |it: ItemV| it.id == id
}

/// Whether an item asks `q` and has been answered.
pub open spec fn answered_question(q: Seq<char>) -> spec_fn(ItemV) -> bool {
    |it: ItemV| it.message == q && it.response is Some
}

proof fn lemma_first_where(s: Seq<ItemV>, p: spec_fn(ItemV) -> bool, k: int)
    requires
        0 <= k < s.len(),
        p(s[k]),
        forall|j: int| 0 <= j < k ==> !p(s[j]),
    ensures
        first_where(s, p) == Some(k),
{
    lemma_minimal_exists(s, p, k);
    let c = choose|i: int| 0 <= i < s.len() && p(s[i]) && forall|j: int| 0 <= j < i ==> !p(s[j]);
    assert(0 <= c < s.len() && p(s[c]) && forall|j: int| 0 <= j < c ==> !p(s[j]));
    if c < k {
        assert(!p(s[c]));
    } else if c > k {
        assert(!p(s[k]));
    }
}

impl HilState {
    pub closed spec fn items_v(&self) -> Seq<ItemV> {
        items_view(self.items@)
    }

    /// The kind of the item at position `i`.
    pub closed spec fn kind_at(&self, i: int) -> HilType {
        self.items@[i].kind
    }

    /// The kinds of the items, in queue order.
    pub closed spec fn kinds(&self) -> Seq<HilType> {
        self.items@.map_values(|i: HilItem| i.kind)
    }

    /// No item.
    pub fn new() -> (s: HilState)
        ensures
            s.items_v() == Seq::<ItemV>::empty(),
    {
        let s = HilState { items: Vec::new() };
        assert(items_view(s.items@) =~= Seq::<ItemV>::empty());
        s
    }

    /// All items, answered or not, in queue order.
    pub fn iter(&self) -> (r: &Vec<HilItem>)
        ensures
            items_view(r@) == self.items_v(),
    {
        &self.items
    }

    /// Whether any item is still waiting for an answer.
    pub fn has_pending(&self) -> (b: bool)
        ensures
            b == exists|i: int| 0 <= i < self.items_v().len() && (#[trigger] self.items_v()[i]).response is None,
    {
        for i in 0..self.items.len()
            invariant
                forall|j: int| 0 <= j < i ==> (#[trigger] self.items_v()[j]).response is Some,
        {
            if self.items[i].response.is_none() {
                assert(self.items_v()[i as int].response is None);
                return true;
            }
        }
        false
    }

    /// The items that have not been answered, in queue order.
    pub fn pending(&self) -> (r: Vec<&HilItem>)
        ensures
            r@.map_values(|x: &HilItem| x@) == self.items_v().filter(|it: ItemV| it.response is None),
    {
        let ghost p = |it: ItemV| it.response is None;
        let mut r: Vec<&HilItem> = Vec::new();
        for i in 0..self.items.len()
            invariant
                r@.map_values(|x: &HilItem| x@) == self.items_v().take(i as int).filter(p),
                p == (|it: ItemV| it.response is None),
        {
            let ghost before = r@;
            proof {
                let t = self.items_v().take(i + 1);
                assert(t.drop_last() =~= self.items_v().take(i as int));
                assert(t.last() == self.items@[i as int]@);
                self.items_v().take(i as int).lemma_filter_push(self.items@[i as int]@, p);
                assert(self.items_v().take(i as int).push(self.items@[i as int]@) =~= t);
            }
            if self.items[i].response.is_none() {
                r.push(&self.items[i]);
                proof {
                    assert(r@.map_values(|x: &HilItem| x@) =~= before.map_values(|x: &HilItem| x@).push(
                        self.items@[i as int]@,
                    ));
                }
            }
        }
        proof {
            assert(self.items_v().take(self.items@.len() as int) =~= self.items_v());
        }
        r
    }

    fn index_of_id(&self, id: &str) -> (r: Option<usize>)
        ensures
            match r {
                Some(k) => first_where(self.items_v(), has_id(id@)) == Some(k as int) && k < self.items@.len(),
                None => first_where(self.items_v(), has_id(id@)) is None,
            },
    {
        let ghost p = has_id(id@);
        for i in 0..self.items.len()
            invariant
                p == has_id(id@),
                forall|j: int| 0 <= j < i ==> !p(#[trigger] self.items_v()[j]),
        {
            if str_eq(self.items[i].id.as_str(), id) {
                proof {
                    lemma_first_where(self.items_v(), p, i as int);
                }
                return Some(i);
            }
        }
        proof {
            assert(!exists|i: int| 0 <= i < self.items_v().len() && p(self.items_v()[i]));
        }
        None
    }

    /// Records the answer for the first item with identifier `id`; false
    /// when no item has it.
    pub fn respond(&mut self, id: &str, value: Json) -> (found: bool)
        ensures
            match first_where(old(self).items_v(), has_id(id@)) {
                Some(k) => found && final(self).items_v() == old(self).items_v().update(
                    k,
                    ItemV { response: Some(value@), ..old(self).items_v()[k] },
                ),
                None => !found && final(self).items_v() == old(self).items_v(),
            },
            final(self).kinds() == old(self).kinds(),
    {
        match self.index_of_id(id) {
            Some(k) => {
                let mut item = self.items.remove(k);
                let ghost before = item@;
                item.response = Some(value);
                proof {
                    assert(before == old(self).items_v()[k as int]);
                    assert(item@ == ItemV { response: Some(value@), ..old(self).items_v()[k as int] });
                }
                self.items.insert(k, item);
                proof {
                    assert(old(self).items@.remove(k as int).insert(k as int, item) =~= old(self).items@.update(k as int, item));
                    assert(self.items@ == old(self).items@.update(k as int, item));
                    assert(self.items_v() =~= old(self).items_v().update(
                        k as int,
                        ItemV { response: Some(value@), ..old(self).items_v()[k as int] },
                    ));
                    assert(self.kinds() =~= old(self).kinds());
                }
                true
            },
            None => false,
        }
    }

    /// Whether some item with identifier `id` has been answered.
    pub fn has_response(&self, id: &str) -> (b: bool)
        ensures
            b == exists|i: int|
                0 <= i < self.items_v().len() && (#[trigger] self.items_v()[i]).id == id@
                    && self.items_v()[i].response is Some,
    {
        for i in 0..self.items.len()
            invariant
                forall|j: int|
                    0 <= j < i ==> !((#[trigger] self.items_v()[j]).id == id@ && self.items_v()[j].response is Some),
        {
            if str_eq(self.items[i].id.as_str(), id) && self.items[i].response.is_some() {
                assert(self.items_v()[i as int].id == id@);
                return true;
            }
        }
        false
    }

    /// The answer of the first item with identifier `id`, if it has one.
    pub fn response(&self, id: &str) -> (r: Option<&Json>)
        ensures
            match first_where(self.items_v(), has_id(id@)) {
                Some(k) => match r {
                    Some(j) => self.items_v()[k].response == Some(j@),
                    None => self.items_v()[k].response is None,
                },
                None => r is None,
            },
    {
        match self.index_of_id(id) {
            Some(k) => match &self.items[k].response {
                Some(j) => Some(j),
                None => None,
            },
            None => None,
        }
    }

    /// Removes the first item with identifier `id` and returns it.
    pub fn remove(&mut self, id: &str) -> (r: Option<HilItem>)
        ensures
            match first_where(old(self).items_v(), has_id(id@)) {
                Some(k) => r matches Some(it) && it@ == old(self).items_v()[k] && final(self).items_v()
                    == old(self).items_v().remove(k),
                None => r is None && final(self).items_v() == old(self).items_v(),
            },
            match first_where(old(self).items_v(), has_id(id@)) {
                Some(k) => r matches Some(it) && it.kind == old(self).kinds()[k] && final(self).kinds() == old(
                    self,
                ).kinds().remove(k),
                None => final(self).kinds() == old(self).kinds(),
            },
    {
        match self.index_of_id(id) {
            Some(k) => {
                let it = self.items.remove(k);
                proof {
                    assert(self.items_v() =~= old(self).items_v().remove(k as int));
                    assert(self.kinds() =~= old(self).kinds().remove(k as int));
                }
                Some(it)
            },
            None => None,
        }
    }

    fn push_item(&mut self, item: HilItem)
        ensures
            final(self).items_v() == old(self).items_v().push(item@),
            final(self).items@ == old(self).items@.push(item),
            final(self).kinds() == old(self).kinds().push(item.kind),
    {
        let ghost k = item.kind;
        self.items.push(item);
        proof {
            assert(self.items_v() =~= old(self).items_v().push(item@));
            assert(self.kinds() =~= old(self).kinds().push(k));
        }
    }

    /// Queues a free-text question.
    pub fn push_question(&mut self, id: &str, message: &str, placeholder: Option<String>)
        ensures
            final(self).items_v() == old(self).items_v().push(ItemV { id: id@, message: message@, response: None }),
            final(self).kind_at(old(self).items_v().len() as int) == (HilType::Question { placeholder }),
            final(self).kinds() == old(self).kinds().push((HilType::Question { placeholder })),
    {
        self.push_item(HilItem { id: owned(id), kind: HilType::Question { placeholder }, message: owned(message), response: None });
    }

    /// Queues a yes/no confirmation.
    pub fn push_confirm(&mut self, id: &str, message: &str, default: Option<bool>)
        ensures
            final(self).items_v() == old(self).items_v().push(ItemV { id: id@, message: message@, response: None }),
            final(self).kind_at(old(self).items_v().len() as int) == (HilType::Confirm { default }),
            final(self).kinds() == old(self).kinds().push((HilType::Confirm { default })),
    {
        self.push_item(HilItem { id: owned(id), kind: HilType::Confirm { default }, message: owned(message), response: None });
    }

    /// Queues a selection prompt.
    pub fn push_select(&mut self, id: &str, message: &str, options: Vec<SelectOption>, multiple: bool)
        ensures
            final(self).items_v() == old(self).items_v().push(ItemV { id: id@, message: message@, response: None }),
            final(self).kind_at(old(self).items_v().len() as int) == (HilType::Select { options, multiple }),
            final(self).kinds() == old(self).kinds().push((HilType::Select { options, multiple })),
    {
        self.push_item(
            HilItem { id: owned(id), kind: HilType::Select { options, multiple }, message: owned(message), response: None },
        );
    }

    /// Queues an informational message.
    pub fn push_message(&mut self, id: &str, message: &str)
        ensures
            final(self).items_v() == old(self).items_v().push(ItemV { id: id@, message: message@, response: None }),
            final(self).kind_at(old(self).items_v().len() as int) == HilType::Message,
            final(self).kinds() == old(self).kinds().push(HilType::Message),
    {
        self.push_item(HilItem { id: owned(id), kind: HilType::Message, message: owned(message), response: None });
    }

    /// Queues a table.
    pub fn push_table(&mut self, id: &str, message: &str, headers: Vec<String>, rows: Vec<Vec<String>>)
        ensures
            final(self).items_v() == old(self).items_v().push(ItemV { id: id@, message: message@, response: None }),
            final(self).kind_at(old(self).items_v().len() as int) == (HilType::Table { headers, rows }),
            final(self).kinds() == old(self).kinds().push((HilType::Table { headers, rows })),
    {
        self.push_item(
            HilItem { id: owned(id), kind: HilType::Table { headers, rows }, message: owned(message), response: None },
        );
    }

    /// Queues a list.
    pub fn push_list(&mut self, id: &str, message: &str, items: Vec<String>, ordered: bool)
        ensures
            final(self).items_v() == old(self).items_v().push(ItemV { id: id@, message: message@, response: None }),
            final(self).kind_at(old(self).items_v().len() as int) == (HilType::List { items, ordered }),
            final(self).kinds() == old(self).kinds().push((HilType::List { items, ordered })),
    {
        self.push_item(
            HilItem { id: owned(id), kind: HilType::List { items, ordered }, message: owned(message), response: None },
        );
    }

    /// Takes the answer to question `q`: the first answered item asking it
    /// is removed and its answer returned.
    pub fn take_response_for(&mut self, q: &str) -> (r: Option<Json>)
        ensures
            match first_where(old(self).items_v(), answered_question(q@)) {
                Some(k) => r matches Some(j) && Some(j@) == old(self).items_v()[k].response && final(self).items_v()
                    == old(self).items_v().remove(k),
                None => r is None && final(self).items_v() == old(self).items_v(),
            },
            match first_where(old(self).items_v(), answered_question(q@)) {
                Some(k) => final(self).kinds() == old(self).kinds().remove(k),
                None => final(self).kinds() == old(self).kinds(),
            },
    {
        let ghost p = answered_question(q@);
        let n = self.items.len();
        let mut i: usize = 0;
        while i < n && !(str_eq(self.items[i].message.as_str(), q) && self.items[i].response.is_some())
            invariant
                n == self.items@.len(),
                i <= n,
                p == answered_question(q@),
                forall|j: int| 0 <= j < i ==> !p(#[trigger] self.items_v()[j]),
            decreases n - i,
        {
            proof {
                assert(!p(self.items_v()[i as int]));
            }
            i = i + 1;
        }
        let found: Option<usize> = if i < n {
            proof {
                assert(p(self.items_v()[i as int]));
            }
            Some(i)
        } else {
            None
        };
        match found {
            Some(k) => {
                proof {
                    lemma_first_where(self.items_v(), p, k as int);
                }
                let it = self.items.remove(k);
                proof {
                    assert(self.items_v() =~= old(self).items_v().remove(k as int));
                }
                it.response
            },
            None => {
                proof {
                    assert(!exists|i: int| 0 <= i < self.items_v().len() && p(self.items_v()[i]));
                }
                None
            },
        }
    }
}

proof fn lemma_minimal_exists(s: Seq<ItemV>, p: spec_fn(ItemV) -> bool, i: int)
    requires
        0 <= i < s.len(),
        p(s[i]),
    ensures
        exists|k: int| 0 <= k < s.len() && p(s[k]) && forall|j: int| 0 <= j < k ==> !p(s[j]),
    decreases i,
{
    if exists|j: int| 0 <= j < i && p(s[j]) {
        let j = choose|j: int| 0 <= j < i && p(s[j]);
        lemma_minimal_exists(s, p, j);
    } else {
        assert(forall|j: int| 0 <= j < i ==> !p(s[j]));
    }
}

proof fn lemma_first_where_some(s: Seq<ItemV>, p: spec_fn(ItemV) -> bool)
    requires
        first_where(s, p) is Some,
    ensures
        0 <= first_where(s, p)->0 < s.len(),
        p(s[first_where(s, p)->0]),
        forall|j: int| 0 <= j < first_where(s, p)->0 ==> !p(s[j]),
{
    let i = choose|i: int| 0 <= i < s.len() && p(s[i]);
    lemma_minimal_exists(s, p, i);
}

/// A response recorded with `respond` is what `response` then reads back.
pub proof fn lemma_respond_then_response(s: Seq<ItemV>, id: Seq<char>, v: JsonV)
    requires
        first_where(s, has_id(id)) is Some,
    ensures
        ({
            let k = first_where(s, has_id(id))->0;
            let t = s.update(k, ItemV { response: Some(v), ..s[k] });
            &&& first_where(t, has_id(id)) == Some(k)
            &&& t[k].response == Some(v)
        }),
{
    let p = has_id(id);
    lemma_first_where_some(s, p);
    let k = first_where(s, p)->0;
    let t = s.update(k, ItemV { response: Some(v), ..s[k] });
    assert(t[k].id == s[k].id);
    assert(p(t[k]));
    assert forall|j: int| 0 <= j < k implies !p(t[j]) by {
        assert(t[j] == s[j]);
    }
    lemma_first_where(t, p, k);
}

/// One option of an `ask` call.
pub struct AskOptionInput {
    /// Display label shown to the user.
    pub label: String,
    /// The value returned when this option is chosen.
    pub value: String,
    /// Optional longer description.
    pub description: Option<String>,
}

/// The input of the `ask` tool.
pub struct AskInput {
    /// The question or message to show the user.
    pub question: String,
    /// "question", "confirm", "select" or "multi_select".
    pub interaction_type: String,
    /// Options for select / multi_select.
    pub options: Vec<AskOptionInput>,
    /// Placeholder text (question type only).
    pub placeholder: Option<String>,
    /// Default value (confirm type only).
    pub default: Option<bool>,
}

/// Lower-case hexadecimal digit of `d` (`d < 16`).
pub open spec fn hex_digit(d: nat) -> char {
    if d < 10 {
        (('0' as nat) + d) as char
    } else {
        (('a' as nat) + d - 10) as char
    }
}

/// The last `count` hexadecimal digits of `n`, zero-padded
/// (`format!("{:0count$x}")` for `n < 16^count`).
pub open spec fn hex_fixed(n: nat, count: nat) -> Seq<char>
    decreases count,
{
    if count == 0 {
        Seq::empty()
    } else {
        hex_fixed(n / 16, (count - 1) as nat).push(hex_digit(n % 16))
    }
}

fn hex_char(d: u8) -> (c: char)
    requires
        d < 16,
    ensures
        c == hex_digit(d as nat),
{
    if d < 10 {
        ((48u8 + d) as char)
    } else {
        ((97u8 + d - 10) as char)
    }
}

fn hex_fixed_exec(n: u128, count: usize) -> (v: Vec<char>)
    ensures
        v@ == hex_fixed(n as nat, count as nat),
    decreases count,
{
    if count == 0 {
        Vec::new()
    } else {
        let mut v = hex_fixed_exec(n / 16, count - 1);
        v.push(hex_char((n % 16) as u8));
        v
    }
}

/// The compact id of time `nanos` (nanoseconds since the Unix epoch): its
/// low 48 bits as 12 lower-case hex digits.
pub open spec fn uuid_text(nanos: u128) -> Seq<char> {
    hex_fixed((nanos % 0x1_0000_0000_0000) as nat, 12)
}

/// The compact id of time `nanos`.
pub fn uuid_of(nanos: u128) -> (s: String)
    ensures
        s@ == uuid_text(nanos),
{
    let digits = hex_fixed_exec(nanos % 0x1_0000_0000_0000, 12);
    crate::text::string_from_chars(digits.as_slice())
}

/// Nanoseconds since the Unix epoch, from `std::time::SystemTime::now()`;
/// 0 when the clock reads before the epoch. Nothing is promised of the value.
#[verifier::external_body]
fn now_nanos() -> u128 {
    std::time::SystemTime::now().duration_since(std::time::UNIX_EPOCH).unwrap_or_default().as_nanos()
}

/// A compact id taken from the clock: 12 hex digits of the current time.
pub fn uuid() -> (s: String)
    ensures
        exists|nanos: u128| s@ == uuid_text(nanos),
{
    let nanos = now_nanos();
    uuid_of(nanos)
}

/// The identifier of an item created at time `nanos`: `hil_` and its
/// compact id.
pub open spec fn hil_id(nanos: u128) -> Seq<char> {
    "hil_"@ + uuid_text(nanos)
}

/// Builds the identifier of an item created at time `nanos`.
pub fn make_hil_id(nanos: u128) -> (s: String)
    ensures
        s@ == hil_id(nanos),
{
    let mut s = String::new();
    push_str(&mut s, "hil_");
    let u = uuid_of(nanos);
    push_str(&mut s, u.as_str());
    s
}

/// `{"status": "ready", "value": v}`.
pub open spec fn ready_json(v: JsonV) -> JsonV {
    JsonV::Object(seq![("status"@, JsonV::Str("ready"@)), ("value"@, v)])
}

/// `{"status": "pending", "id": id}`.
pub open spec fn pending_json(id: Seq<char>) -> JsonV {
    JsonV::Object(seq![("status"@, JsonV::Str("pending"@)), ("id"@, JsonV::Str(id))])
}

/// The selection options an `ask` call asks for: labels and descriptions
/// kept, each value as a JSON string.
pub open spec fn options_match(out: Seq<SelectOption>, inp: Seq<AskOptionInput>) -> bool {
    &&& out.len() == inp.len()
    &&& forall|i: int|
        0 <= i < inp.len() ==> (#[trigger] out[i]).label == inp[i].label && out[i].value == Json::Str(inp[i].value)
            && out[i].description == inp[i].description
}

fn convert_options(inp: Vec<AskOptionInput>) -> (out: Vec<SelectOption>)
    ensures
        options_match(out@, inp@),
{
    let mut out: Vec<SelectOption> = Vec::new();
    let mut rest = inp;
    let ghost all = rest@;
    let n = rest.len();
    let mut k: usize = 0;
    while k < n
        invariant
            k <= n,
            all.len() == n,
            all == inp@,
            rest@ == all.skip(k as int),
            options_match(out@, all.take(k as int)),
        decreases n - k,
    {
        let o = rest.remove(0);
        proof {
            assert(o == all[k as int]);
            assert(rest@ =~= all.skip(k + 1));
        }
        out.push(SelectOption { label: o.label, value: Json::Str(o.value), description: o.description });
        proof {
            assert forall|i: int| 0 <= i < k + 1 implies (#[trigger] out@[i]).label == all.take(k + 1)[i].label
                && out@[i].value == Json::Str(all.take(k + 1)[i].value) && out@[i].description == all.take(
                k + 1,
            )[i].description by {
                if i < k {
                    assert(all.take(k + 1)[i] == all.take(k as int)[i]);
                }
            }
        }
        k = k + 1;
    }
    proof {
        assert(all.take(n as int) =~= all);
    }
    out
}

fn status_json(status: &str, key: &str, value: Json) -> (j: Json)
    ensures
        j@ == JsonV::Object(seq![("status"@, JsonV::Str(status@)), (key@, value@)]),
{
    let mut m: Vec<(String, Json)> = Vec::new();
    m.push((owned("status"), Json::Str(owned(status))));
    m.push((owned(key), value));
    let j = Json::Object(m);
    proof {
        crate::json::lemma_view_unfold(j);
        assert(crate::json::members_view(m@) =~= seq![("status"@, JsonV::Str(status@)), (key@, value@)]);
    }
    j
}

/// The `ask` tool. When an item asking the same question has an answer,
/// that item is taken and its answer returned as ready. Otherwise a new item
/// named `hil_id(nanos)` is queued for the interaction type and reported as
/// pending; an unknown type is an error and queues nothing.
pub fn ask(state: &mut HilState, input: AskInput, nanos: u128) -> (r: Result<Json, String>)
    ensures
        ask_outcome(*old(state), input, nanos, *final(state), r),
{
    if let Some(value) = state.take_response_for(input.question.as_str()) {
        let j = status_json("ready", "value", value);
        proof {
            reveal_strlit("status");
        }
        return Ok(j);
    }
    let id = make_hil_id(nanos);
    let t = chars_of(input.interaction_type.as_str());
    let question_kw = chars_of("question");
    let confirm_kw = chars_of("confirm");
    let select_kw = chars_of("select");
    let multi_kw = chars_of("multi_select");
    if chars_eq(t.as_slice(), question_kw.as_slice()) {
        state.push_question(id.as_str(), input.question.as_str(), input.placeholder);
    } else if chars_eq(t.as_slice(), confirm_kw.as_slice()) {
        state.push_confirm(id.as_str(), input.question.as_str(), input.default);
    } else if chars_eq(t.as_slice(), select_kw.as_slice()) || chars_eq(t.as_slice(), multi_kw.as_slice()) {
        let multiple = chars_eq(t.as_slice(), multi_kw.as_slice());
        let options = convert_options(input.options);
        state.push_select(id.as_str(), input.question.as_str(), options, multiple);
    } else {
        let mut e = String::new();
        push_str(&mut e, "Unknown interaction_type: ");
        push_str(&mut e, input.interaction_type.as_str());
        return Err(e);
    }
    Ok(status_json("pending", "id", Json::Str(id)))
}

/// The `ask` tool as the plugin runs it: the new item is named after the
/// current time, of which nothing is assumed.
pub fn ask_now(state: &mut HilState, input: AskInput) -> (r: Result<Json, String>)
    ensures
        exists|nanos: u128|
            ask_outcome(*old(state), input, nanos, *final(state), r),
{
    let nanos = now_nanos();
    let r = ask(state, input, nanos);
    assert(ask_outcome(*old(state), input, nanos, *state, r));
    r
}

/// Whether `(after, r)` is what `ask` gives for `before`, `input` and `nanos`.
pub open spec fn ask_outcome(
    before: HilState,
    input: AskInput,
    nanos: u128,
    after: HilState,
    r: Result<Json, String>,
) -> bool {
    let q = input.question@;
    let t = input.interaction_type@;
    let id = hil_id(nanos);
    let n = before.items_v().len() as int;
    let queued = before.items_v().push(ItemV { id, message: q, response: None });
    match first_where(before.items_v(), answered_question(q)) {
        Some(k) => r matches Ok(j) && j@ == ready_json(before.items_v()[k].response->0) && after.items_v()
            == before.items_v().remove(k) && after.kinds() == before.kinds().remove(k),
        None => if t == "question"@ {
            &&& r matches Ok(j) && j@ == pending_json(id)
            &&& after.items_v() == queued
            &&& after.kinds() == before.kinds().push(HilType::Question { placeholder: input.placeholder })
            &&& after.kind_at(n) == (HilType::Question { placeholder: input.placeholder })
        } else if t == "confirm"@ {
            &&& r matches Ok(j) && j@ == pending_json(id)
            &&& after.items_v() == queued
            &&& after.kinds() == before.kinds().push(HilType::Confirm { default: input.default })
            &&& after.kind_at(n) == (HilType::Confirm { default: input.default })
        } else if t == "select"@ || t == "multi_select"@ {
            &&& r matches Ok(j) && j@ == pending_json(id)
            &&& after.items_v() == queued
            &&& after.kinds() == before.kinds().push(after.kind_at(n))
            &&& after.kind_at(n) matches HilType::Select { options, multiple } && multiple == (t == "multi_select"@)
                && options_match(options@, input.options@)
        } else {
            &&& r matches Err(e) && e@ == "Unknown interaction_type: "@ + t
            &&& after.items_v() == before.items_v()
            &&& after.kinds() == before.kinds()
        },
    }
}

/// The system-prompt text while questions are pending.
pub open spec fn waiting_prompt() -> Seq<char> {
    "You have asked the user a question and are waiting for their response. Call the `ask` tool again to check if the user has responded. Do NOT proceed without the user's input."@
}

/// The reason a completion is rejected while questions are pending.
pub open spec fn waiting_reason() -> Seq<char> {
    "Waiting for user input on pending questions. Call the `ask` tool again to check for a response."@
}

/// Whether a state has an unanswered item.
pub open spec fn pending_spec(s: Seq<ItemV>) -> bool {
    exists|i: int| 0 <= i < s.len() && (#[trigger] s[i]).response is None
}

/// The plugin's system prompt: a reminder while some item is unanswered,
/// none otherwise (or when no state is registered).
pub fn hil_system_prompt(state: Option<&HilState>) -> (r: Option<String>)
    ensures
        match state {
            Some(s) if pending_spec(s.items_v()) => r matches Some(t) && t@ == waiting_prompt(),
            _ => r is None,
        },
{
    match state {
        Some(s) => {
            if s.has_pending() {
                Some(owned(
                    "You have asked the user a question and are waiting for their response. Call the `ask` tool again to check if the user has responded. Do NOT proceed without the user's input.",
                ))
            } else {
                None
            }
        },
        None => None,
    }
}

/// The plugin's answer to a final completion: rejected while some item is
/// unanswered, accepted otherwise (or when no state is registered).
pub fn hil_on_completion(state: Option<&HilState>) -> (a: CompletionAction)
    ensures
        match state {
            Some(s) if pending_spec(s.items_v()) => a matches CompletionAction::Reject { reason } && reason@
                == waiting_reason(),
            _ => a is Accept,
        },
{
    match state {
        Some(s) => {
            if s.has_pending() {
                CompletionAction::Reject {
                    reason: owned(
                        "Waiting for user input on pending questions. Call the `ask` tool again to check for a response.",
                    ),
                }
            } else {
                CompletionAction::Accept
            }
        },
        None => CompletionAction::Accept,
    }
}

} // verus!
