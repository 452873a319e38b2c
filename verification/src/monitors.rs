//! The monitors that Hyprland lists, and the desktop outputs that are made of them.

use crate::error::DesktopError;
use crate::number::Binary64;
use crate::text::{append_decimal, same_text};
use vstd::prelude::*;
use vstd::string::*;

verus! {

/// A JSON value. Of a number only its value as an unsigned integer is kept, if it has one.
#[derive(Debug)]
pub enum Json {
    Null,
    Bool(bool),
    Number(Option<u64>),
    Text(String),
    List(Vec<Json>),
    Object(Vec<(String, Json)>),
}

/// A JSON document, as `serde_json` holds it.
#[verifier::external_type_specification]
#[verifier::external_body]
pub struct ExValue(serde_json::Value);

/// The error of a text that is no JSON document.
#[verifier::external_type_specification]
#[verifier::external_body]
pub struct ExJsonError(serde_json::Error);

/// The JSON document that a text writes; `None` where it writes none.
pub uninterp spec fn json_document(text: Seq<char>) -> Option<Json>;

/// What a JSON document holds.
pub uninterp spec fn json_contents(value: serde_json::Value) -> Json;

/// Calls `serde_json::from_str` for a `serde_json::Value`. Whether a text is a JSON document, and
/// which, depends on the text alone.
#[verifier::external_body]
fn parse_value(text: &str) -> (value: Result<serde_json::Value, serde_json::Error>)
    ensures
        match value {
            Ok(value) => json_document(text@) == Some(json_contents(value)),
            Err(_) => json_document(text@) is None,
        },
{
    serde_json::from_str(text)
}

/// Takes a `serde_json::Value` apart, variant by variant. A number is asked for by
/// `serde_json::Number::as_u64`; the members of an object come in the order of its map.
#[verifier::external_body]
fn plain_json(value: serde_json::Value) -> (json: Json)
    ensures
        json == json_contents(value),
{
    match value {
        serde_json::Value::Null => Json::Null,
        serde_json::Value::Bool(flag) => Json::Bool(flag),
        serde_json::Value::Number(number) => Json::Number(number.as_u64()),
        serde_json::Value::String(text) => Json::Text(text),
        serde_json::Value::Array(items) => Json::List(items.into_iter().map(plain_json).collect()),
        serde_json::Value::Object(members) => {
            Json::Object(members.into_iter().map(|(name, item)| (name, plain_json(item))).collect())
        },
    }
}

/// The value of the first member of that name.
pub open spec fn member_value(members: Seq<(String, Json)>, name: Seq<char>) -> Option<Json>
    decreases members.len(),
{
    if members.len() == 0 {
        None
    } else if members[0].0@ == name {
        Some(members[0].1)
    } else {
        member_value(members.drop_first(), name)
    }
}

/// The value of the member of that name; `None` where there is none or the value is no object.
pub open spec fn member(json: Json, name: Seq<char>) -> Option<Json> {
    match json {
        Json::Object(members) => member_value(members@, name),
        _ => None,
    }
}

fn find_member<'a>(json: &'a Json, name: &str) -> (value: Option<&'a Json>)
    ensures
        match value {
            Some(value) => member(*json, name@) == Some(*value),
            None => member(*json, name@) is None,
        },
{
    match json {
        Json::Object(members) => {
            assert(members@.skip(0) =~= members@);
            for i in 0..members.len()
                invariant
                    *json == Json::Object(*members),
                    member(*json, name@) == member_value(members@.skip(i as int), name@),
            {
                let entry = &members[i];
                assert(members@.skip(i as int)[0] == *entry);
                assert(members@.skip(i as int).drop_first() =~= members@.skip(i + 1));
                if same_text(entry.0.as_str(), name) {
                    return Some(&entry.1);
                }
            }
            None
        },
        _ => None,
    }
}

/// Whether a JSON value is an object that is named `output`.
pub open spec fn is_named(item: Json, output: Seq<char>) -> bool {
    match member(item, "name"@) {
        Some(Json::Text(name)) => name@ == output,
        _ => false,
    }
}

/// The number of the active workspace of a monitor.
pub open spec fn active_workspace(item: Json) -> Option<u32> {
    match member(item, "activeWorkspace"@) {
        Some(workspace) => match member(workspace, "id"@) {
            Some(Json::Number(Some(id))) => if id <= u32::MAX {
                Some(id as u32)
            } else {
                None
            },
            _ => None,
        },
        None => None,
    }
}

/// The active workspace of the first of some monitors that is named `output`.
pub open spec fn workspace_among(items: Seq<Json>, output: Seq<char>) -> Option<u32>
    decreases items.len(),
{
    if items.len() == 0 {
        None
    } else if is_named(items[0], output) {
        active_workspace(items[0])
    } else {
        workspace_among(items.drop_first(), output)
    }
}

/// The active workspace of an output, by a JSON document that lists the monitors.
pub open spec fn workspace_in(document: Json, output: Seq<char>) -> Option<u32> {
    match document {
        Json::List(items) => workspace_among(items@, output),
        _ => None,
    }
}

fn read_named(item: &Json, output: &str) -> (yes: bool)
    ensures
        yes == is_named(*item, output@),
{
    match find_member(item, "name") {
        Some(Json::Text(name)) => same_text(name.as_str(), output),
        _ => false,
    }
}

fn read_workspace(item: &Json) -> (id: Option<u32>)
    ensures
        id == active_workspace(*item),
{
    match find_member(item, "activeWorkspace") {
        Some(workspace) => match find_member(workspace, "id") {
            Some(Json::Number(Some(id))) => if *id <= 0xffff_ffff {
                Some(*id as u32)
            } else {
                None
            },
            _ => None,
        },
        None => None,
    }
}

/// The active workspace of an output, by a JSON document that lists the monitors.
pub fn find_workspace(document: &Json, output: &str) -> (id: Option<u32>)
    ensures
        id == workspace_in(*document, output@),
{
    match document {
        Json::List(items) => {
            assert(items@.skip(0) =~= items@);
            for i in 0..items.len()
                invariant
                    *document == Json::List(*items),
                    workspace_in(*document, output@) == workspace_among(
                        items@.skip(i as int),
                        output@,
                    ),
            {
                let item = &items[i];
                assert(items@.skip(i as int)[0] == *item);
                assert(items@.skip(i as int).drop_first() =~= items@.skip(i + 1));
                if read_named(item, output) {
                    return read_workspace(item);
                }
            }
            None
        },
        _ => None,
    }
}

/// The active workspace of an output, or what is wrong with the list of monitors.
pub open spec fn workspace_spec(document: Option<Json>, output: Seq<char>) -> Result<
    u32,
    crate::error::ErrorView,
> {
    match document {
        Some(document) => match workspace_in(document, output) {
            Some(id) => Ok(id),
            None => Err(crate::error::ErrorView::NoWorkspace(output)),
        },
        None => Err(crate::error::ErrorView::InvalidMonitors),
    }
}

/// The view of an error where there is one.
pub open spec fn result_view<T>(result: Result<T, DesktopError>) -> Result<
    T,
    crate::error::ErrorView,
> {
    match result {
        Ok(value) => Ok(value),
        Err(error) => Err(error@),
    }
}

/// Finds the active workspace of an output in the JSON text that lists the monitors.
pub fn monitor_workspace(monitors: &str, output: &str) -> (id: Result<u32, DesktopError>)
    ensures
        result_view(id) == workspace_spec(json_document(monitors@), output@),
{
    let value = match parse_value(monitors) {
        Ok(value) => value,
        Err(_) => return Err(DesktopError::InvalidMonitors),
    };
    let document = plain_json(value);
    match find_workspace(&document, output) {
        Some(id) => Ok(id),
        None => Err(DesktopError::NoWorkspace(output.to_owned())),
    }
}

/// A workspace of Hyprland.
#[derive(Clone, Copy, Debug, PartialEq, Eq, Structural)]
pub struct HyprWorkspace {
    pub id: u32,
}

/// A monitor as Hyprland lists it.
#[derive(Debug)]
pub struct HyprMonitor {
    pub name: String,
    pub description: String,
    pub width: u32,
    pub height: u32,
    pub refresh_rate: Binary64,
    pub active_workspace: HyprWorkspace,
}

/// What is listed of a monitor.
pub struct MonitorView {
    pub name: Seq<char>,
    pub description: Seq<char>,
    pub width: u32,
    pub height: u32,
    pub refresh_rate: Binary64,
    pub workspace: u32,
}

impl View for HyprMonitor {
    type V = MonitorView;

    open spec fn view(&self) -> MonitorView {
        MonitorView {
            name: self.name@,
            description: self.description@,
            width: self.width,
            height: self.height,
            refresh_rate: self.refresh_rate,
            workspace: self.active_workspace.id,
        }
    }
}

/// What is listed of some monitors.
pub open spec fn monitor_views(list: Seq<HyprMonitor>) -> Seq<MonitorView> {
    Seq::new(list.len(), |i: int| list[i]@)
}

/// An output that can be captured.
#[derive(Debug)]
pub struct DesktopOutput {
    pub name: String,
    pub description: String,
    pub mode: String,
    pub workspace: u32,
    pub virtual_output: bool,
}

/// What an output holds.
pub struct OutputView {
    pub name: Seq<char>,
    pub description: Seq<char>,
    pub mode: Seq<char>,
    pub workspace: u32,
    pub virtual_output: bool,
}

impl View for DesktopOutput {
    type V = OutputView;

    open spec fn view(&self) -> OutputView {
        OutputView {
            name: self.name@,
            description: self.description@,
            mode: self.mode@,
            workspace: self.workspace,
            virtual_output: self.virtual_output,
        }
    }
}

/// What some outputs hold.
pub open spec fn output_views(list: Seq<DesktopOutput>) -> Seq<OutputView> {
    Seq::new(list.len(), |i: int| list[i]@)
}

/// The mode of a monitor: `WIDTHxHEIGHT@RATE`, with the rate rounded.
pub open spec fn mode_text(width: u32, height: u32, rate: u32) -> Seq<char> {
    crate::text::decimal(width as nat) + "x"@ + crate::text::decimal(height as nat) + "@"@
        + crate::text::decimal(rate as nat)
}

/// The output that a monitor is, where `headless` is the name of the virtual output.
pub open spec fn output_of(monitor: MonitorView, headless: Seq<char>) -> OutputView {
    OutputView {
        name: monitor.name,
        description: if monitor.description.len() == 0 {
            "Virtual output"@
        } else {
            monitor.description
        },
        mode: mode_text(monitor.width, monitor.height, monitor.refresh_rate.rounded_spec()),
        workspace: monitor.workspace,
        virtual_output: monitor.name == headless,
    }
}

/// The outputs that some monitors are, in their order.
pub open spec fn outputs_of(monitors: Seq<MonitorView>, headless: Seq<char>) -> Seq<OutputView> {
    Seq::new(monitors.len(), |i: int| output_of(monitors[i], headless))
}

/// Whether a JSON document lists just these monitors: in their order, each under its name and with
/// its active workspace.
pub open spec fn same_listing(document: Json, monitors: Seq<MonitorView>) -> bool {
    match document {
        Json::List(items) => {
            &&& items@.len() == monitors.len()
            &&& forall|i: int|
                0 <= i < items@.len() ==> {
                    &&& is_named(#[trigger] items@[i], monitors[i].name)
                    &&& active_workspace(items@[i]) == Some(monitors[i].workspace)
                }
        },
        _ => false,
    }
}

fn write_mode(width: u32, height: u32, rate: u32) -> (mode: String)
    ensures
        mode@ == mode_text(width, height, rate),
{
    let mut mode = String::new();
    append_decimal(&mut mode, width);
    mode.append("x");
    append_decimal(&mut mode, height);
    mode.append("@");
    append_decimal(&mut mode, rate);
    assert(mode@ =~= mode_text(width, height, rate));
    mode
}

fn make_output(monitor: &HyprMonitor, headless_output: &str) -> (output: DesktopOutput)
    ensures
        output@ == output_of(monitor@, headless_output@),
{
    let description = if monitor.description.as_str().is_empty() {
        "Virtual output".to_owned()
    } else {
        monitor.description.clone()
    };
    DesktopOutput {
        name: monitor.name.clone(),
        description,
        mode: write_mode(monitor.width, monitor.height, monitor.refresh_rate.rounded()),
        workspace: monitor.active_workspace.id,
        virtual_output: same_text(monitor.name.as_str(), headless_output),
    }
}

/// The outputs of a list of monitors; an error where there is no list.
pub fn parse_outputs(monitors: &Option<Vec<HyprMonitor>>, headless_output: &str) -> (outputs:
    Result<Vec<DesktopOutput>, DesktopError>)
    ensures
        match monitors {
            Some(monitors) => {
                &&& outputs matches Ok(outputs)
                &&& output_views(outputs@) == outputs_of(
                    monitor_views(monitors@),
                    headless_output@,
                )
            },
            None => outputs matches Err(error) && error@ == crate::error::ErrorView::InvalidMonitors,
        },
{
    let monitors = match monitors {
        Some(monitors) => monitors,
        None => return Err(DesktopError::InvalidMonitors),
    };
    let mut outputs: Vec<DesktopOutput> = Vec::new();
    let ghost all = outputs_of(monitor_views(monitors@), headless_output@);
    for i in 0..monitors.len()
        invariant
            all == outputs_of(monitor_views(monitors@), headless_output@),
            output_views(outputs@) == all.take(i as int),
    {
        let ghost before = outputs@;
        outputs.push(make_output(&monitors[i], headless_output));
        proof {
            assert(outputs@.len() == i + 1) by {
                assert(output_views(before).len() == i);
            }
            assert forall|j: int| 0 <= j <= i implies #[trigger] output_views(outputs@)[j]
                == all[j] by {
                if j < i {
                    assert(output_views(before)[j] == all.take(i as int)[j]);
                    assert(outputs@[j] == before[j]);
                }
            }
            assert(output_views(outputs@) =~= all.take(i + 1));
        }
    }
    assert(all.take(monitors@.len() as int) =~= all);
    Ok(outputs)
}

/// Each monitor becomes one output, in the same place and under its own name, and only the one
/// with the name of the virtual output is virtual.
pub proof fn law_outputs_mirror_the_monitors(monitors: Seq<MonitorView>, headless: Seq<char>)
    ensures
        outputs_of(monitors, headless).len() == monitors.len(),
        forall|i: int|
            0 <= i < monitors.len() ==> {
                let output = #[trigger] outputs_of(monitors, headless)[i];
                &&& output.name == monitors[i].name
                &&& output.description.len() > 0
                &&& output.virtual_output <==> output.name == headless
            },
{
    reveal_strlit("Virtual output");
}

/// The mode of every output reads back as its monitor. It holds one `x` and one `@`, at the returned
/// places, and digits everywhere else: the unsigned number before the `x` is the width of the
/// monitor, the one between `x` and `@` is its height, and the one behind the `@` is its refresh
/// rate, rounded.
pub proof fn law_mode_reads_back_as_the_monitor(
    monitors: Seq<HyprMonitor>,
    headless: Seq<char>,
    i: int,
) -> (at: (int, int))
    requires
        0 <= i < monitors.len(),
    ensures
        ({
            let mode = outputs_of(monitor_views(monitors), headless)[i].mode;
            let monitor = monitors[i];
            &&& 0 < at.0 < at.1 < mode.len()
            &&& mode[at.0] == 'x'
            &&& mode[at.1] == '@'
            &&& forall|j: int|
                0 <= j < mode.len() && j != at.0 && j != at.1 ==> '0' <= #[trigger] mode[j] <= '9'
            &&& crate::text::unsigned_value(mode.take(at.0)) == Some(monitor.width)
            &&& crate::text::unsigned_value(mode.subrange(at.0 + 1, at.1)) == Some(monitor.height)
            &&& crate::text::unsigned_value(mode.skip(at.1 + 1)) == Some(
                monitor.refresh_rate.rounded_spec(),
            )
        }),
{
    let mode = outputs_of(monitor_views(monitors), headless)[i].mode;
    let monitor = monitors[i];
    let rate = monitor.refresh_rate.rounded_spec();
    let w = crate::text::decimal(monitor.width as nat);
    let h = crate::text::decimal(monitor.height as nat);
    let r = crate::text::decimal(rate as nat);
    crate::text::law_decimal_notation(monitor.width as nat);
    crate::text::law_decimal_notation(monitor.height as nat);
    crate::text::law_decimal_notation(rate as nat);
    crate::text::law_decimal_is_read_back(monitor.width);
    crate::text::law_decimal_is_read_back(monitor.height);
    crate::text::law_decimal_is_read_back(rate);
    reveal_strlit("x");
    reveal_strlit("@");
    let x = w.len() as int;
    let a = x + 1 + h.len();
    assert(mode =~= w + seq!['x'] + h + seq!['@'] + r);
    assert(mode.take(x) =~= w);
    assert(mode.subrange(x + 1, a) =~= h);
    assert(mode.skip(a + 1) =~= r);
    assert forall|j: int| 0 <= j < mode.len() && j != x && j != a implies '0' <= #[trigger] mode[j]
        <= '9' by {
        if j < x {
            assert(mode[j] == w[j]);
        } else if j < a {
            assert(mode[j] == h[j - x - 1]);
        } else {
            assert(mode[j] == r[j - a - 1]);
        }
    }
    (x, a)
}

/// Every monitor is shown as one output, in its place: under its name and with its workspace, with
/// its own description unless that is empty, and as virtual exactly if it has the name of the
/// virtual output.
pub proof fn law_outputs_show_their_monitors(
    monitors: Seq<HyprMonitor>,
    headless: Seq<char>,
    i: int,
)
    requires
        0 <= i < monitors.len(),
    ensures
        ({
            let outputs = outputs_of(monitor_views(monitors), headless);
            &&& outputs.len() == monitors.len()
            &&& outputs[i].name == monitors[i].name@
            &&& outputs[i].workspace == monitors[i].active_workspace.id
            &&& outputs[i].virtual_output <==> monitors[i].name@ == headless
            &&& monitors[i].description@.len() > 0 ==> outputs[i].description
                == monitors[i].description@
            &&& monitors[i].description@.len() == 0 ==> outputs[i].description
                == "Virtual output"@
        }),
{
}

/// What an output holds is what its fields hold, for each of a list in order.
pub proof fn law_output_views_show_every_field(list: Seq<DesktopOutput>, i: int)
    requires
        0 <= i < list.len(),
    ensures
        output_views(list).len() == list.len(),
        output_views(list)[i].name == list[i].name@,
        output_views(list)[i].description == list[i].description@,
        output_views(list)[i].mode == list[i].mode@,
        output_views(list)[i].workspace == list[i].workspace,
        output_views(list)[i].virtual_output == list[i].virtual_output,
{
}

proof fn lemma_member_value(members: Seq<(String, Json)>, name: Seq<char>, k: int)
    requires
        0 <= k <= members.len(),
        forall|j: int| 0 <= j < k ==> (#[trigger] members[j]).0@ != name,
        k < members.len() ==> members[k].0@ == name,
    ensures
        member_value(members, name) == if k < members.len() {
            Some(members[k].1)
        } else {
            None
        },
    decreases k,
{
    if k > 0 {
        let rest = members.drop_first();
        assert forall|j: int| 0 <= j < k - 1 implies (#[trigger] rest[j]).0@ != name by {
            assert(rest[j] == members[j + 1]);
        }
        assert(members[0].0@ != name);
        lemma_member_value(rest, name, k - 1);
    }
}

/// A member of an object is looked up by its name: where members have that name the first of them
/// is found, wherever it stands, and where none has it, or the value is no object, none is found.
pub proof fn law_members_are_found_by_name(
    json: Json,
    members: Vec<(String, Json)>,
    name: Seq<char>,
    k: int,
)
    requires
        0 <= k <= members@.len(),
        forall|j: int| 0 <= j < k ==> (#[trigger] members@[j]).0@ != name,
        k < members@.len() ==> members@[k].0@ == name,
    ensures
        json == Json::Object(members) ==> member(json, name) == if k < members@.len() {
            Some(members@[k].1)
        } else {
            None
        },
        !(json is Object) ==> member(json, name) is None,
{
    lemma_member_value(members@, name, k);
}

/// A monitor is named by its member `name`, and only by a text.
pub proof fn law_monitors_are_named_by_their_text(item: Json, text: String, output: Seq<char>)
    ensures
        member(item, "name"@) == Some(Json::Text(text)) ==> (is_named(item, output) <==> text@
            == output),
        is_named(item, output) ==> member(item, "name"@) matches Some(Json::Text(_)),
{
}

/// The active workspace of a monitor is the number in the member `id` of its member
/// `activeWorkspace`, as long as that is a whole number below 2^32; otherwise it has none.
pub proof fn law_workspace_is_the_given_number(item: Json, workspace: Json, id: u64)
    ensures
        member(item, "activeWorkspace"@) == Some(workspace) && member(workspace, "id"@) == Some(
            Json::Number(Some(id)),
        ) ==> match active_workspace(item) {
            Some(found) => found == id,
            None => id >= 0x1_0000_0000,
        },
        member(item, "activeWorkspace"@) == Some(workspace) && !(member(workspace, "id"@) matches
            Some(Json::Number(Some(_)))) ==> active_workspace(item) is None,
        member(item, "activeWorkspace"@) is None ==> active_workspace(item) is None,
{
}

proof fn lemma_first_named(items: Seq<Json>, output: Seq<char>, k: int)
    requires
        0 <= k <= items.len(),
        forall|j: int| 0 <= j < k ==> !is_named(#[trigger] items[j], output),
        k < items.len() ==> is_named(items[k], output),
    ensures
        workspace_among(items, output) == if k < items.len() {
            active_workspace(items[k])
        } else {
            None
        },
    decreases k,
{
    if k > 0 {
        let rest = items.drop_first();
        assert forall|j: int| 0 <= j < k - 1 implies !is_named(#[trigger] rest[j], output) by {
            assert(rest[j] == items[j + 1]);
        }
        assert(!is_named(items[0], output));
        lemma_first_named(rest, output, k - 1);
    }
}

/// The workspace of an output is that of the first monitor of its name, wherever in the list that
/// stands. Where that monitor has none, or no monitor has the name, or the document is no list,
/// that is the error, with the name of the output; a text that is no document is another.
pub proof fn law_workspace_is_that_of_the_first_of_the_name(
    document: Json,
    items: Vec<Json>,
    output: Seq<char>,
    k: int,
)
    requires
        0 <= k <= items@.len(),
        forall|j: int| 0 <= j < k ==> !is_named(#[trigger] items@[j], output),
        k < items@.len() ==> is_named(items@[k], output),
    ensures
        document == Json::List(items) && k < items@.len() ==> match active_workspace(items@[k]) {
            Some(id) => workspace_spec(Some(document), output) == Ok::<
                u32,
                crate::error::ErrorView,
            >(id),
            None => workspace_spec(Some(document), output) == Err::<u32, _>(
                crate::error::ErrorView::NoWorkspace(output),
            ),
        },
        document == Json::List(items) && k == items@.len() ==> workspace_spec(Some(document), output)
            == Err::<u32, _>(crate::error::ErrorView::NoWorkspace(output)),
        !(document is List) ==> workspace_spec(Some(document), output) == Err::<u32, _>(
            crate::error::ErrorView::NoWorkspace(output),
        ),
        workspace_spec(None, output) == Err::<u32, _>(crate::error::ErrorView::InvalidMonitors),
{
    lemma_first_named(items@, output, k);
}

} // verus!
