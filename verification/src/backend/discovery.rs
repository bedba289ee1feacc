//! Finding a remote box by name.
//!
//! The `tt` tool lists the boxes on the network as a JSON array:
//!
//! ```json
//! [{"name":"qb2-lab","host":"127.0.0.1","ctrl_port":8899,
//!   "chips":"4xBH","status":"serving:llama3","apiver":1}]
//! ```
//!
//! Running the tool is left to the application, which hands its output over.

use vstd::prelude::*;

use crate::backend::ws;
use crate::document;
use crate::document::{number_field, parse_json, text_field, Json, JsonView};
use crate::text;
use crate::text::{
    append_decimal, find_last, find_pair, parse_unsigned, slice_of, str_eq, string_of, trim,
    trim_chars,
};

verus! {

/// A box as the `tt` tool lists it.
#[derive(Debug, PartialEq)]
pub struct DiscoveredBox {
    /// The name that `--remote` goes by.
    pub name: String,
    /// The host name or address.
    pub host: String,
    /// The port that its telemetry is served on.
    pub ctrl_port: u16,
    /// What chips it has, as a text to show.
    pub chips: String,
    /// What it is doing, as a text to show.
    pub status: String,
    /// The version of its interface.
    pub apiver: u8,
}

/// What a listed box holds.
pub struct BoxView {
    pub name: Seq<char>,
    pub host: Seq<char>,
    pub ctrl_port: nat,
    pub chips: Seq<char>,
    pub status: Seq<char>,
    pub apiver: nat,
}

impl View for DiscoveredBox {
    type V = BoxView;

    open spec fn view(&self) -> BoxView {
        BoxView {
            name: self.name@,
            host: self.host@,
            ctrl_port: self.ctrl_port as nat,
            chips: self.chips@,
            status: self.status@,
            apiver: self.apiver as nat,
        }
    }
}

/// `HOST:PORT` of a listed box.
pub open spec fn box_address(b: BoxView) -> Seq<char> {
    b.host + seq![':'] + text::decimal(b.ctrl_port)
}

/// A text, or a question mark where there is none.
pub open spec fn or_unknown(s: Seq<char>) -> Seq<char> {
    if s.len() == 0 { "?"@ } else { s }
}

impl DiscoveredBox {
    /// `HOST:PORT`, to connect to.
    pub fn host_port(&self) -> (s: String)
        ensures
            s@ == box_address(self@),
    {
        let mut s = self.host.clone();
        s.push(':');
        append_decimal(&mut s, self.ctrl_port as u64);
        assert(s@ =~= box_address(self@));
        s
    }

    /// The box on one line: name, address, chips and status.
    pub fn summary_line(&self) -> (s: String)
        ensures
            s@ == self@.name + " · "@ + box_address(self@) + " · "@ + or_unknown(self@.chips)
                + " · "@ + or_unknown(self@.status),
    {
        let mut s = self.name.clone();
        s.append(" · ");
        let address = self.host_port();
        s.append(address.as_str());
        s.append(" · ");
        append_known(&mut s, &self.chips);
        s.append(" · ");
        append_known(&mut s, &self.status);
        s
    }
}

fn append_known(s: &mut String, t: &String)
    ensures
        final(s)@ == old(s)@ + or_unknown(t@),
{
    if str_eq(t.as_str(), "") {
        proof {
            reveal_strlit("");
            assert(t@.len() == 0);
        }
        s.append("?");
    } else {
        proof {
            reveal_strlit("");
            if t@.len() == 0 {
                assert(t@ =~= ""@);
            }
        }
        s.append(t.as_str());
    }
}

/// A text that a record may leave out.
pub open spec fn default_text(f: Option<JsonView>) -> Option<Seq<char>> {
    match f {
        None => Some(Seq::empty()),
        Some(JsonView::Text(s)) => Some(s),
        Some(_) => None,
    }
}

/// A number that a record may leave out.
pub open spec fn default_number(f: Option<JsonView>, max: nat) -> Option<nat> {
    match f {
        None => Some(0),
        Some(_) => document::number_of(f, max),
    }
}

/// The box that a record describes: name, host and port must be there, the
/// rest may be left out.
pub open spec fn box_of(j: JsonView) -> Option<BoxView> {
    let name = document::text_of(document::field(j, 0, "name"@));
    let host = document::text_of(document::field(j, 1, "host"@));
    let port = document::number_of(document::field(j, 2, "ctrl_port"@), 0xffff);
    let chips = default_text(document::field(j, 3, "chips"@));
    let status = default_text(document::field(j, 4, "status"@));
    let apiver = default_number(document::field(j, 5, "apiver"@), 0xff);
    if document::is_record(j, 3, 6) && name is Some && host is Some && port is Some && chips is Some
        && status is Some && apiver is Some {
        Some(
            BoxView {
                name: name->0,
                host: host->0,
                ctrl_port: port->0,
                chips: chips->0,
                status: status->0,
                apiver: apiver->0,
            },
        )
    } else {
        None
    }
}

fn decode_default_text(f: Option<&Json>) -> (r: Option<String>)
    ensures
        text::opt_text(r) == default_text(document::opt_json(f)),
{
    match f {
        None => {
            let s = String::new();
            assert(s@ =~= Seq::<char>::empty());
            Some(s)
        },
        Some(Json::Text(s)) => Some(s.clone()),
        Some(_) => None,
    }
}

fn decode_box(j: &Json) -> (r: Option<DiscoveredBox>)
    ensures
        match r {
            Some(b) => box_of(j@) == Some(b@),
            None => box_of(j@) is None,
        },
{
    if !j.is_record(3, 6) {
        return None;
    }
    let name = match text_field(j.field(0, "name")) {
        Some(s) => s,
        None => return None,
    };
    let host = match text_field(j.field(1, "host")) {
        Some(s) => s,
        None => return None,
    };
    let ctrl_port: u64 = match number_field(j.field(2, "ctrl_port"), 0xffff) {
        Some(n) => n,
        None => return None,
    };
    let chips = match decode_default_text(j.field(3, "chips")) {
        Some(s) => s,
        None => return None,
    };
    let status = match decode_default_text(j.field(4, "status")) {
        Some(s) => s,
        None => return None,
    };
    let f = j.field(5, "apiver");
    let apiver: u64 = if f.is_none() {
        0
    } else {
        match number_field(f, 0xff) {
            Some(n) => n,
            None => return None,
        }
    };
    Some(
        DiscoveredBox {
            name,
            host,
            ctrl_port: ctrl_port as u16,
            chips,
            status,
            apiver: apiver as u8,
        },
    )
}

/// The boxes that an array of records describes, where each does.
pub open spec fn boxes_of(entries: Seq<JsonView>) -> Option<Seq<BoxView>> {
    if forall|i: int| 0 <= i < entries.len() ==> box_of(#[trigger] entries[i]) is Some {
        Some(Seq::new(entries.len(), |i: int| box_of(entries[i])->0))
    } else {
        None
    }
}

/// What a list of boxes holds.
pub open spec fn box_views(boxes: Seq<DiscoveredBox>) -> Seq<BoxView> {
    boxes.map_values(|b: DiscoveredBox| b@)
}

/// What the output of the tool denotes: the boxes, or why it denotes none.
pub open spec fn listed_boxes(discover_json: Seq<char>) -> Result<Seq<BoxView>, Seq<char>> {
    let trouble = "could not parse `tt --json discover` output: "@;
    match document::json_document(text::trimmed(discover_json)) {
        Err(e) => Err(trouble + e),
        Ok(JsonView::Array(entries)) => match boxes_of(entries) {
            Some(boxes) => Ok(boxes),
            None => Err(trouble + "an entry is no box"@),
        },
        Ok(_) => Err(trouble + "not an array"@),
    }
}

/// The view of a result whose error is a text.
pub open spec fn boxes_view(r: Result<Vec<DiscoveredBox>, String>) -> Result<
    Seq<BoxView>,
    Seq<char>,
> {
    match r {
        Ok(boxes) => Ok(box_views(boxes@)),
        Err(e) => Err(e@),
    }
}

/// The view of a result of two texts.
pub open spec fn text_result(r: Result<String, String>) -> Result<Seq<char>, Seq<char>> {
    match r {
        Ok(s) => Ok(s@),
        Err(e) => Err(e@),
    }
}

fn unparsed(detail: &str) -> (s: String)
    ensures
        s@ == "could not parse `tt --json discover` output: "@ + detail@,
{
    let mut s = "could not parse `tt --json discover` output: ".to_owned();
    s.append(detail);
    s
}

/// Reads the boxes that a parsed output lists.
pub fn decode_boxes(doc: &Json) -> (r: Option<Vec<DiscoveredBox>>)
    ensures
        match r {
            Some(boxes) => doc@ is Array && boxes_of(doc@->Array_0) == Some(box_views(boxes@)),
            None => doc@ is Array ==> boxes_of(doc@->Array_0) is None,
        },
{
    match doc {
        Json::Array(entries) => {
            proof {
                document::lemma_array_view(*entries);
            }
            let ghost views = doc@->Array_0;
            let mut boxes: Vec<DiscoveredBox> = Vec::new();
            for i in 0..entries.len()
                invariant
                    doc@ == JsonView::Array(views),
                    views.len() == entries@.len(),
                    forall|k: int| 0 <= k < views.len() ==> #[trigger] views[k] == entries@[k]@,
                    boxes@.len() == i,
                    forall|k: int|
                        0 <= k < i ==> box_of(#[trigger] views[k]) == Some(boxes@[k]@),
            {
                match decode_box(&entries[i]) {
                    Some(b) => boxes.push(b),
                    None => {
                        assert(box_of(views[i as int]) is None);
                        return None;
                    },
                }
            }
            assert(boxes_of(views)->0 =~= box_views(boxes@));
            Some(boxes)
        },
        _ => None,
    }
}

/// Reads the output of `tt --json discover`.
pub fn parse_discovered_boxes(discover_json: &str) -> (r: Result<Vec<DiscoveredBox>, String>)
    ensures
        boxes_view(r) == listed_boxes(discover_json@),
{
    let trimmed = trim(discover_json);
    match parse_json(trimmed.as_str()) {
        Err(e) => Err(unparsed(e.as_str())),
        Ok(doc) => match decode_boxes(&doc) {
            Some(boxes) => Ok(boxes),
            None => match doc {
                Json::Array(_) => Err(unparsed("an entry is no box")),
                _ => Err(unparsed("not an array")),
            },
        },
    }
}

/// Whether a text denotes a port.
pub open spec fn is_port(s: Seq<char>) -> bool {
    text::unsigned_value(text::trimmed(s), 10, 0xffff) is Some
}

/// Whether a target carries a port: `HOST:PORT`, or `[ADDRESS]:PORT`.
pub open spec fn has_port(spec: Seq<char>) -> bool {
    let s = text::trimmed(spec);
    if s.len() > 0 && s[0] == '[' {
        let r = s.skip(1);
        let k = text::first_pair(r, ']', ':');
        k < r.len() && is_port(r.skip(k + 2))
    } else {
        let k = text::last_of(s, ':');
        k > 0 && is_port(s.skip(k + 1))
    }
}

fn reads_as_port(s: &[char], from: usize) -> (r: bool)
    requires
        from <= s@.len(),
    ensures
        r == is_port(s@.skip(from as int)),
{
    let n: usize = s.len();
    let v = slice_of(s, from, n);
    assert(v@ =~= s@.skip(from as int));
    let p = string_of(v.as_slice());
    let t = trim_chars(p.as_str());
    parse_unsigned(t.as_slice(), 10, 0xffff).is_some()
}

/// Whether a target carries a port, so that it is an address and not the name
/// of a box.
pub fn looks_like_host_port(spec: &str) -> (r: bool)
    ensures
        r == has_port(spec@),
{
    let s = trim_chars(spec);
    if s.len() > 0 && s[0] == '[' {
        let r = slice_of(s.as_slice(), 1, s.len());
        assert(r@ =~= s@.skip(1));
        match find_pair(r.as_slice(), ']', ':') {
            Some(k) => reads_as_port(r.as_slice(), k + 2),
            None => false,
        }
    } else {
        match find_last(s.as_slice(), ':') {
            Some(k) => k > 0 && reads_as_port(s.as_slice(), k + 1),
            None => false,
        }
    }
}

/// The position of the first box of a name, or the length where there is none.
pub open spec fn box_named(boxes: Seq<BoxView>, name: Seq<char>) -> int
    decreases boxes.len(),
{
    if boxes.len() == 0 || boxes[0].name == name {
        0
    } else {
        1 + box_named(boxes.skip(1), name)
    }
}

/// The names of the boxes, with commas between.
pub open spec fn name_list(boxes: Seq<BoxView>) -> Seq<char>
    decreases boxes.len(),
{
    if boxes.len() == 0 {
        Seq::empty()
    } else if boxes.len() == 1 {
        boxes[0].name
    } else {
        name_list(boxes.drop_last()) + ", "@ + boxes.last().name
    }
}

/// Where a requested box is among those found: its address, or why it is not
/// there.
pub open spec fn named_target(boxes: Seq<BoxView>, requested: Seq<char>) -> Result<
    Seq<char>,
    Seq<char>,
> {
    let k = box_named(boxes, requested);
    if k < boxes.len() {
        Ok(box_address(boxes[k]))
    } else if boxes.len() == 0 {
        Err("no box named '"@ + requested + "' (none discovered)"@)
    } else {
        Err("no box named '"@ + requested + "' (discovered: "@ + name_list(boxes) + ")"@)
    }
}

/// What a requested target resolves to, given the output of the tool.
pub open spec fn remote_target(discover_json: Seq<char>, requested: Seq<char>) -> Result<
    Seq<char>,
    Seq<char>,
> {
    let name = text::trimmed(requested);
    if name.len() == 0 {
        Err("no remote box requested"@)
    } else if has_port(name) {
        Ok(name)
    } else {
        match listed_boxes(discover_json) {
            Ok(boxes) => named_target(boxes, name),
            Err(e) => Err(e),
        }
    }
}

/// Looks a box up by name.
pub fn resolve_name(boxes: &Vec<DiscoveredBox>, requested: &str) -> (r: Result<String, String>)
    ensures
        text_result(r) == named_target(box_views(boxes@), requested@),
{
    let ghost views = box_views(boxes@);
    let mut names = String::new();
    assert(views.skip(0) =~= views);
    assert(views.take(0) =~= Seq::<BoxView>::empty());
    assert(names@ =~= name_list(views.take(0)));
    for i in 0..boxes.len()
        invariant
            views == box_views(boxes@),
            box_named(views, requested@) == i + box_named(views.skip(i as int), requested@),
            names@ == name_list(views.take(i as int)),
    {
        assert(views[i as int] == boxes@[i as int]@);
        if str_eq(boxes[i].name.as_str(), requested) {
            return Ok(boxes[i].host_port());
        }
        assert(views.skip(i as int).skip(1) =~= views.skip(i as int + 1));
        assert(views.take(i as int + 1).drop_last() =~= views.take(i as int));
        if i > 0 {
            names.append(", ");
        }
        names.append(boxes[i].name.as_str());
        assert(names@ =~= name_list(views.take(i as int + 1)));
    }
    assert(views.take(views.len() as int) =~= views);
    let mut e = "no box named '".to_owned();
    e.append(requested);
    if boxes.len() == 0 {
        e.append("' (none discovered)");
    } else {
        e.append("' (discovered: ");
        e.append(names.as_str());
        e.append(")");
    }
    Err(e)
}

/// Resolves a requested target: an address stands for itself, and anything
/// else is the name of a box that the tool must have found.
pub fn resolve_remote_target(discover_json: &str, requested: &str) -> (r: Result<String, String>)
    ensures
        text_result(r) == remote_target(discover_json@, requested@),
{
    let name = trim(requested);
    if str_eq(name.as_str(), "") {
        proof {
            reveal_strlit("");
            assert(name@.len() == 0);
        }
        return Err("no remote box requested".to_owned());
    }
    proof {
        reveal_strlit("");
        if name@.len() == 0 {
            assert(name@ =~= ""@);
        }
    }
    if looks_like_host_port(name.as_str()) {
        return Ok(name);
    }
    match parse_discovered_boxes(discover_json) {
        Ok(boxes) => resolve_name(&boxes, name.as_str()),
        Err(e) => Err(e),
    }
}

/// The tool to run: the one that the environment names, unless it is blank.
pub fn tt_bin(configured: Option<String>) -> (bin: String)
    ensures
        bin@ == match configured {
            Some(s) => if text::trimmed(s@).len() > 0 { s@ } else { "tt"@ },
            None => "tt"@,
        },
{
    match configured {
        Some(s) => if trim_chars(s.as_str()).len() > 0 {
            s
        } else {
            "tt".to_owned()
        },
        None => "tt".to_owned(),
    }
}

/// How a run of the tool went.
#[derive(Debug)]
pub enum DiscoverRun {
    /// There is no such tool.
    Missing,
    /// It could not be started, and why.
    Failed(String),
    /// It ended with an error, and what it printed to its error stream.
    Error(String),
    /// What it printed.
    Output(String),
}

/// What `run_tt_discover` says of a run.
pub open spec fn run_outcome(bin: Seq<char>, run: DiscoverRun) -> Result<Seq<char>, Seq<char>> {
    match run {
        DiscoverRun::Missing => Err(
            "`"@ + bin + "` not found on PATH — install tt-station's `tt` CLI or set TT_BIN"@,
        ),
        DiscoverRun::Failed(e) => Err("failed to run `"@ + bin + " --json discover`: "@ + e@),
        DiscoverRun::Error(e) => Err(
            "`"@ + bin + " --json discover` failed: "@ + text::trimmed(e@),
        ),
        DiscoverRun::Output(s) => Ok(s@),
    }
}

/// The output of a run of the tool, or the message to show where it failed.
pub fn run_tt_discover(bin: &str, run: DiscoverRun) -> (r: Result<String, String>)
    ensures
        text_result(r) == run_outcome(bin@, run),
{
    match run {
        DiscoverRun::Missing => {
            let mut s = "`".to_owned();
            s.append(bin);
            s.append("` not found on PATH — install tt-station's `tt` CLI or set TT_BIN");
            Err(s)
        },
        DiscoverRun::Failed(e) => {
            let mut s = "failed to run `".to_owned();
            s.append(bin);
            s.append(" --json discover`: ");
            s.append(e.as_str());
            Err(s)
        },
        DiscoverRun::Error(e) => {
            let mut s = "`".to_owned();
            s.append(bin);
            s.append(" --json discover` failed: ");
            let t = trim(e.as_str());
            s.append(t.as_str());
            Err(s)
        },
        DiscoverRun::Output(s) => Ok(s),
    }
}

/// The boxes that a run of the tool found.
pub fn discover_boxes(bin: &str, run: DiscoverRun) -> (r: Result<Vec<DiscoveredBox>, String>)
    ensures
        boxes_view(r) == match run_outcome(bin@, run) {
            Ok(json) => listed_boxes(json),
            Err(e) => Err(e),
        },
{
    match run_tt_discover(bin, run) {
        Ok(json) => parse_discovered_boxes(json.as_str()),
        Err(e) => Err(e),
    }
}

/// Resolves the target of `--remote` with what discovery gave, if it was run.
/// A target that carries a port needs none. Where discovery fails or does not
/// know the name, the target is taken as a host.
pub fn resolve_remote_spec(spec: &str, discovered: &Result<String, String>) -> (r: Result<
    String,
    String,
>)
    ensures
        text_result(r) == Ok::<Seq<char>, Seq<char>>(
            if has_port(spec@) {
                spec@
            } else {
                match discovered {
                    Ok(json) => match remote_target(json@, spec@) {
                        Ok(target) => target,
                        Err(_) => spec@,
                    },
                    Err(_) => spec@,
                }
            },
        ),
{
    if looks_like_host_port(spec) {
        return Ok(spec.to_owned());
    }
    match discovered {
        Ok(json) => match resolve_remote_target(json.as_str(), spec) {
            Ok(target) => Ok(target),
            Err(_) => Ok(spec.to_owned()),
        },
        Err(_) => Ok(spec.to_owned()),
    }
}

/// A target that carries a port resolves to itself, whatever was discovered.
pub proof fn law_addresses_pass_through(discover_json: Seq<char>, requested: Seq<char>)
    requires
        text::trimmed(requested).len() > 0,
        has_port(text::trimmed(requested)),
    ensures
        remote_target(discover_json, requested) == Ok::<Seq<char>, Seq<char>>(
            text::trimmed(requested),
        ),
{
}

/// A name resolves to the address of the first box of that name; where no box
/// has it, it is an error.
pub proof fn law_names_resolve_to_the_first_box(boxes: Seq<BoxView>, name: Seq<char>)
    ensures
        match named_target(boxes, name) {
            Ok(target) => exists|k: int|
                0 <= k < boxes.len() && boxes[k].name == name && target == box_address(
                    #[trigger] boxes[k],
                ) && forall|i: int| 0 <= i < k ==> (#[trigger] boxes[i]).name != name,
            Err(_) => forall|i: int| 0 <= i < boxes.len() ==> (#[trigger] boxes[i]).name != name,
        },
{
    lemma_box_named(boxes, name);
    let k = box_named(boxes, name);
    if k < boxes.len() {
        assert(boxes[k].name == name);
    }
}

proof fn lemma_box_named(boxes: Seq<BoxView>, name: Seq<char>)
    ensures
        0 <= box_named(boxes, name) <= boxes.len(),
        box_named(boxes, name) < boxes.len() ==> boxes[box_named(boxes, name)].name == name,
        forall|i: int| 0 <= i < box_named(boxes, name) ==> (#[trigger] boxes[i]).name != name,
    decreases boxes.len(),
{
    if boxes.len() > 0 && boxes[0].name != name {
        lemma_box_named(boxes.skip(1), name);
        let k = box_named(boxes.skip(1), name);
        assert forall|i: int| 0 <= i < k + 1 implies (#[trigger] boxes[i]).name != name by {
            if i > 0 {
                assert(boxes.skip(1)[i - 1] == boxes[i]);
            }
        }
    }
}

/// A record is a box where it has a name, a host and a port; each of its members
/// is the one of its own name, and what is left out is empty or 0.
pub proof fn law_boxes_are_read_by_name(j: JsonView)
    requires
        j is Object,
        document::member(j, "name"@) matches Some(JsonView::Text(_)),
        document::member(j, "host"@) matches Some(JsonView::Text(_)),
        document::number_of(document::member(j, "ctrl_port"@), 65535) is Some,
        document::member(j, "chips"@) is None || document::member(j, "chips"@)->0 is Text,
        document::member(j, "status"@) is None || document::member(j, "status"@)->0 is Text,
        document::member(j, "apiver"@) is None || document::number_of(
            document::member(j, "apiver"@),
            255,
        ) is Some,
    ensures
        box_of(j) is Some,
        ({
            let b = box_of(j)->0;
            &&& document::text_of(document::member(j, "name"@)) == Some(b.name)
            &&& document::text_of(document::member(j, "host"@)) == Some(b.host)
            &&& document::number_of(document::member(j, "ctrl_port"@), 65535) == Some(b.ctrl_port)
            &&& document::member(j, "chips"@) is Some ==> document::text_of(
                document::member(j, "chips"@),
            ) == Some(b.chips)
            &&& document::member(j, "chips"@) is None ==> b.chips.len() == 0
            &&& document::member(j, "status"@) is Some ==> document::text_of(
                document::member(j, "status"@),
            ) == Some(b.status)
            &&& document::member(j, "status"@) is None ==> b.status.len() == 0
            &&& document::member(j, "apiver"@) is Some ==> document::number_of(
                document::member(j, "apiver"@),
                255,
            ) == Some(b.apiver)
            &&& document::member(j, "apiver"@) is None ==> b.apiver == 0
        }),
{
}

/// A box cannot do without its name, its host and its port.
pub proof fn law_boxes_need_an_address(j: JsonView)
    requires
        j is Object,
        document::text_of(document::member(j, "name"@)) is None || document::text_of(
            document::member(j, "host"@),
        ) is None || document::number_of(document::member(j, "ctrl_port"@), 65535) is None,
    ensures
        box_of(j) is None,
{
}

/// The boxes are listed in the order of the records, and all of them or none.
pub proof fn law_boxes_keep_their_order(entries: Seq<JsonView>)
    ensures
        boxes_of(entries) is Some <==> forall|i: int|
            0 <= i < entries.len() ==> box_of(#[trigger] entries[i]) is Some,
        boxes_of(entries) matches Some(boxes) ==> boxes.len() == entries.len() && forall|i: int|
            0 <= i < boxes.len() ==> box_of(entries[i]) == Some(#[trigger] boxes[i]),
{
}

/// The address of a box leads to it: it counts as an address, and taken apart it
/// is the box's host and port.
pub proof fn law_box_addresses_lead_to_their_box(b: BoxView)
    requires
        b.host.len() > 0,
        !text::is_white(b.host[0]),
        !text::is_white(b.host.last()),
        b.host[0] != '[',
        b.ctrl_port <= 65535,
    ensures
        box_address(b) == b.host + ":"@ + text::decimal(b.ctrl_port),
        has_port(box_address(b)),
        ws::target_parts(box_address(b)) == Ok::<(Seq<char>, nat), Seq<char>>(
            (b.host, b.ctrl_port),
        ),
{
    reveal_strlit(":");
    let none = Seq::<char>::empty();
    let d = text::decimal(b.ctrl_port);
    let s = box_address(b);
    assert(s =~= b.host + ":"@ + d);
    ws::law_targets_come_apart(b.host, b.ctrl_port);
    text::lemma_decimal_is_digits(b.ctrl_port);
    text::law_decimal_reads_back(b.ctrl_port);
    assert(text::digit_value(d[0], 10) is Some);
    assert(s.last() == d[d.len() - 1]);
    text::law_trimming_leaves_the_text(none, s, none);
    assert(none + s + none =~= s);
    text::lemma_last_of_join(b.host, ':', d);
    assert(s.skip(b.host.len() as int + 1) =~= d);
}

/// A list of names grows at its end, with a comma before what is added.
pub proof fn law_names_are_parted_by_commas(boxes: Seq<BoxView>, b: BoxView)
    ensures
        name_list(seq![b]) == b.name,
        boxes.len() > 0 ==> name_list(boxes.push(b)) == name_list(boxes) + ", "@ + b.name,
        name_list(Seq::empty()).len() == 0,
{
    assert(boxes.push(b).drop_last() =~= boxes);
}

/// A run gives what it printed, and only a run that ended well does; an error names the
/// program, and says what was printed about it.
pub proof fn law_runs_give_what_they_printed(bin: Seq<char>, s: String)
    ensures
        run_outcome(bin, DiscoverRun::Output(s)) == Ok::<Seq<char>, Seq<char>>(s@),
        run_outcome(bin, DiscoverRun::Missing) is Err,
        run_outcome(bin, DiscoverRun::Failed(s)) == Err::<Seq<char>, Seq<char>>(
            "failed to run `"@ + bin + " --json discover`: "@ + s@,
        ),
        run_outcome(bin, DiscoverRun::Error(s)) == Err::<Seq<char>, Seq<char>>(
            "`"@ + bin + " --json discover` failed: "@ + text::trimmed(s@),
        ),
{
}

} // verus!
