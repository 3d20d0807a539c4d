//! Choosing the audio endpoint for a stream.

use vstd::prelude::*;
use vstd::string::*;
use crate::text::{
    chars_of, contains, find_from, has, law_lines, lemma_position, lemma_position_is, lines, lowercase,
    occurs_at, position, string_of, strip_cr, trim_end, trim_range, trim_start, trimmed, TrimSet,
};

verus! {

/// The direction of a stream.
#[derive(Clone, Copy, Debug, PartialEq, Eq, Structural)]
pub enum DataFlow {
    Render,
    Capture,
    All,
}

/// What an endpoint says of itself; `None` for what could not be read.
#[derive(Debug)]
pub struct EndpointProps {
    /// The friendly name.
    pub name: Option<String>,
    /// The device interface that the endpoint belongs to.
    pub interface_id: Option<String>,
}

/// What an [`EndpointProps`] holds.
pub struct PropsModel {
    pub name: Option<Seq<char>>,
    pub interface_id: Option<Seq<char>>,
}

/// The endpoint that a search settles on.
#[derive(Clone, Copy, Debug, PartialEq, Eq, Structural)]
pub enum EndpointChoice {
    /// The active endpoint with this number.
    Active(usize),
    /// The endpoint with this number among those of all states.
    AnyState(usize),
    /// The default endpoint of the system.
    SystemDefault,
    /// No endpoint.
    NotFound,
}

/// The text of an optional string.
pub open spec fn text_of(s: Option<String>) -> Option<Seq<char>> {
    match s {
        Some(t) => Some(t@),
        None => None,
    }
}

impl View for EndpointProps {
    type V = PropsModel;

    open spec fn view(&self) -> PropsModel {
        PropsModel { name: text_of(self.name), interface_id: text_of(self.interface_id) }
    }
}

/// What an entry of an endpoint list holds; `None` for an endpoint that could
/// not be opened.
pub open spec fn entry_model(e: Option<EndpointProps>) -> Option<PropsModel> {
    match e {
        Some(p) => Some(p@),
        None => None,
    }
}

/// What a list of endpoints holds.
pub open spec fn endpoint_models(s: Seq<Option<EndpointProps>>) -> Seq<Option<PropsModel>> {
    s.map_values(|e: Option<EndpointProps>| entry_model(e))
}

// ---------------------------------------------------------------------------
// Rules
// ---------------------------------------------------------------------------

/// A reason to choose an endpoint. Names and texts are in lowercase.
#[derive(Debug)]
pub enum Rule {
    /// Its name holds this text.
    Preferred(String),
    /// It belongs to an iRig, for a stream of this direction.
    Irig(DataFlow),
    /// Its name is that of an output.
    Output,
}

/// What a [`Rule`] holds.
pub enum RuleModel {
    Preferred(Seq<char>),
    Irig(DataFlow),
    Output,
}

impl View for Rule {
    type V = RuleModel;

    open spec fn view(&self) -> RuleModel {
        match self {
            Rule::Preferred(s) => RuleModel::Preferred(s@),
            Rule::Irig(f) => RuleModel::Irig(*f),
            Rule::Output => RuleModel::Output,
        }
    }
}

/// The name is that of a microphone or another input.
pub open spec fn input_name(name: Seq<char>) -> bool {
    ||| has(name, "microfone"@)
    ||| has(name, "mic"@)
    ||| has(name, "input"@)
    ||| has(name, "entrada"@)
}

/// The name is that of loudspeakers, headphones or an iRig.
pub open spec fn output_name(name: Seq<char>) -> bool {
    ||| has(name, "alto-falantes"@)
    ||| has(name, "speakers"@)
    ||| has(name, "headphone"@)
    ||| has(name, "fone"@)
    ||| has(name, "irig"@)
}

/// The text, or the empty text.
pub open spec fn or_empty(s: Option<Seq<char>>) -> Seq<char> {
    match s {
        Some(t) => t,
        None => Seq::empty(),
    }
}

/// The endpoint belongs to an iRig, by the vendor in its interface or by name.
pub open spec fn belongs_to_irig(p: PropsModel) -> bool {
    ||| (p.interface_id matches Some(id) && has(id, "vid_1963"@))
    ||| has(or_empty(p.name), "irig"@)
}

/// The rule speaks for the endpoint.
pub open spec fn rule_fits(rule: RuleModel, p: PropsModel) -> bool {
    match rule {
        RuleModel::Preferred(text) => p.name matches Some(name) && has(name, text),
        RuleModel::Irig(flow) => {
            &&& !(flow == DataFlow::Render && input_name(or_empty(p.name)))
            &&& belongs_to_irig(p)
        },
        RuleModel::Output => p.name matches Some(name) && !input_name(name) && output_name(name),
    }
}

fn is_input_name(name: &str) -> (r: bool)
    ensures
        r == input_name(name@),
{
    contains(name, "microfone") || contains(name, "mic") || contains(name, "input") || contains(
        name,
        "entrada",
    )
}

fn is_output_name(name: &str) -> (r: bool)
    ensures
        r == output_name(name@),
{
    contains(name, "alto-falantes") || contains(name, "speakers") || contains(name, "headphone")
        || contains(name, "fone") || contains(name, "irig")
}

impl Rule {
    /// Whether the rule speaks for the endpoint.
    pub fn fits(&self, p: &EndpointProps) -> (r: bool)
        ensures
            r == rule_fits(self@, p@),
    {
        match self {
            Rule::Preferred(text) => match &p.name {
                Some(name) => contains(name.as_str(), text.as_str()),
                None => false,
            },
            Rule::Irig(flow) => {
                let empty = String::new();
                let name = match &p.name {
                    Some(name) => name.as_str(),
                    None => empty.as_str(),
                };
                assert(name@ =~= or_empty(p@.name));
                if *flow == DataFlow::Render && is_input_name(name) {
                    return false;
                }
                let by_vid = match &p.interface_id {
                    Some(id) => contains(id.as_str(), "vid_1963"),
                    None => false,
                };
                by_vid || contains(name, "irig")
            },
            Rule::Output => match &p.name {
                Some(name) => !is_input_name(name.as_str()) && is_output_name(name.as_str()),
                None => false,
            },
        }
    }
}

/// The number of the first endpoint for which the rule speaks.
pub open spec fn first_match(rule: RuleModel, s: Seq<Option<PropsModel>>) -> Option<int>
    decreases s.len(),
{
    if s.len() == 0 {
        None
    } else {
        match first_match(rule, s.drop_last()) {
            Some(i) => Some(i),
            None => if s.last() matches Some(p) && rule_fits(rule, p) {
                Some(s.len() - 1)
            } else {
                None
            },
        }
    }
}

/// What [`first_match`] gives is a place where the rule speaks, and none before
/// it is.
pub proof fn lemma_first_match(rule: RuleModel, s: Seq<Option<PropsModel>>)
    ensures
        match first_match(rule, s) {
            Some(i) => {
                &&& 0 <= i < s.len()
                &&& s[i] is Some
                &&& rule_fits(rule, s[i]->0)
                &&& forall|j: int| 0 <= j < i && s[j] is Some ==> !rule_fits(rule, s[j]->0)
            },
            None => forall|j: int| 0 <= j < s.len() && s[j] is Some ==> !rule_fits(rule, s[j]->0),
        },
    decreases s.len(),
{
    if s.len() > 0 {
        let t = s.drop_last();
        lemma_first_match(rule, t);
        assert forall|j: int| 0 <= j < t.len() implies t[j] == s[j] by {}
    }
}

fn find_match(rule: &Rule, list: &Vec<Option<EndpointProps>>) -> (r: Option<usize>)
    ensures
        (match r {
            Some(i) => Some(i as int),
            None => None,
        }) == first_match(rule@, endpoint_models(list@)),
{
    let ghost all = endpoint_models(list@);
    let mut i: usize = 0;
    while i < list.len()
        invariant
            i <= list.len(),
            all == endpoint_models(list@),
            first_match(rule@, all.take(i as int)) is None,
        decreases list.len() - i,
    {
        let fits = match &list[i] {
            Some(p) => rule.fits(p),
            None => false,
        };
        assert(all.take(i + 1).drop_last() =~= all.take(i as int));
        assert(all.take(i + 1).last() == entry_model(list@[i as int]));
        if fits {
            proof {
                lemma_match_prefix(rule@, all, i + 1);
            }
            return Some(i);
        }
        i += 1;
    }
    assert(all.take(all.len() as int) =~= all);
    None
}

proof fn lemma_match_prefix(rule: RuleModel, s: Seq<Option<PropsModel>>, n: int)
    requires
        0 <= n <= s.len(),
        first_match(rule, s.take(n)) is Some,
    ensures
        first_match(rule, s) == first_match(rule, s.take(n)),
    decreases s.len(),
{
    if n == s.len() {
        assert(s.take(n) =~= s);
    } else {
        let t = s.drop_last();
        assert(t.take(n) =~= s.take(n));
        lemma_match_prefix(rule, t, n);
    }
}

// ---------------------------------------------------------------------------
// Preferences
// ---------------------------------------------------------------------------

/// The word that marks the lines of a configuration with the preferred device of
/// a direction.
pub open spec fn preference_key(flow: DataFlow) -> Seq<char> {
    match flow {
        DataFlow::Capture => "preferred_input_device"@,
        _ => "preferred_render_device"@,
    }
}

fn key_of(flow: DataFlow) -> (r: &'static str)
    ensures
        r@ == preference_key(flow),
{
    match flow {
        DataFlow::Capture => "preferred_input_device",
        _ => "preferred_render_device",
    }
}

/// What a line of the configuration says of the preferred device: the text
/// behind its first colon, without spaces, quotes and commas around it.
pub open spec fn line_preference(line: Seq<char>, key: Seq<char>) -> Seq<char> {
    let p = position(line, ':');
    if has(line, key) && p < line.len() {
        trimmed(trimmed(line.skip(p + 1), TrimSet::Whitespace), TrimSet::Quotes)
    } else {
        Seq::empty()
    }
}

/// The preferences in the lines of a configuration, without empty ones.
pub open spec fn line_preferences(s: Seq<Seq<char>>, key: Seq<char>) -> Seq<Seq<char>>
    decreases s.len(),
{
    if s.len() == 0 {
        Seq::empty()
    } else {
        let p = line_preference(s[0], key);
        if p.len() > 0 {
            seq![p] + line_preferences(s.skip(1), key)
        } else {
            line_preferences(s.skip(1), key)
        }
    }
}

/// The preferred devices of a direction that a configuration names, in its order.
pub open spec fn preferences_spec(config: Seq<char>, flow: DataFlow) -> Seq<Seq<char>> {
    line_preferences(lines(config), preference_key(flow))
}

/// The texts of a list of strings.
pub open spec fn texts(s: Seq<String>) -> Seq<Seq<char>> {
    s.map_values(|t: String| t@)
}

fn read_line(v: &Vec<char>, from: usize, to: usize, key: &str) -> (r: String)
    requires
        from <= to <= v.len(),
    ensures
        r@ == line_preference(v@.subrange(from as int, to as int), key@),
{
    let line = string_of(v, from, to);
    if !contains(line.as_str(), key) {
        return String::new();
    }
    let c = chars_of(line.as_str());
    assert(c@.skip(0) =~= c@);
    let p = find_from(&c, 0, ':');
    if p >= c.len() {
        return String::new();
    }
    let a = trim_range(&c, p + 1, c.len(), TrimSet::Whitespace);
    let b = trim_range(&c, a.0, a.1, TrimSet::Quotes);
    assert(c@.subrange(p + 1, c@.len() as int) =~= c@.skip(p + 1));
    string_of(&c, b.0, b.1)
}

/// The preferred devices of a direction that a configuration names, in its order.
pub fn preferences(config: &str, flow: DataFlow) -> (r: Vec<String>)
    ensures
        texts(r@) == preferences_spec(config@, flow),
{
    let v = chars_of(config);
    let key = key_of(flow);
    let ghost k = key@;
    let mut r: Vec<String> = Vec::new();
    let mut i: usize = 0;
    assert(v@.skip(0) =~= v@);
    assert(texts(r@) =~= Seq::empty());
    while i < v.len()
        invariant
            i <= v.len(),
            v@ == config@,
            k == key@,
            k == preference_key(flow),
            texts(r@) + line_preferences(lines(v@.skip(i as int)), k) == preferences_spec(config@, flow),
        decreases v.len() - i,
    {
        let ghost rest = v@.skip(i as int);
        let ghost before = r@;
        let end = find_from(&v, i, '\n');
        proof {
            lemma_position(rest, '\n');
        }
        let mut to = end;
        if end < v.len() && i < end && v[end - 1] == '\r' {
            to = end - 1;
        }
        let ghost line = v@.subrange(i as int, to as int);
        let pref = read_line(&v, i, to, key);
        let ghost text = pref@;
        let next = if end < v.len() {
            end + 1
        } else {
            end
        };
        proof {
            let all = lines(rest);
            if end < v.len() {
                assert(rest.take(end - i) =~= v@.subrange(i as int, end as int));
                assert(line =~= strip_cr(rest.take(end - i)));
                assert(rest.skip(end - i + 1) =~= v@.skip(next as int));
            } else {
                assert(line =~= rest);
                assert(v@.skip(next as int) =~= Seq::empty());
                assert(lines(v@.skip(next as int)) =~= Seq::empty());
            }
            assert(all =~= seq![line] + lines(v@.skip(next as int)));
            assert(all.skip(1) =~= lines(v@.skip(next as int)));
            assert(all[0] == line);
        }
        let empty = pref.as_str().is_empty();
        if !empty {
            r.push(pref);
            assert(texts(r@) =~= texts(before).push(text));
        }
        assert(texts(r@) + line_preferences(lines(v@.skip(next as int)), k) =~= texts(before)
            + line_preferences(lines(rest), k));
        i = next;
    }
    assert(v@.skip(v@.len() as int) =~= Seq::empty());
    assert(lines(v@.skip(v@.len() as int)) =~= Seq::empty());
    assert(texts(r@) =~= preferences_spec(config@, flow));
    r
}

// ---------------------------------------------------------------------------
// The choice
// ---------------------------------------------------------------------------

/// The first active endpoint that a preference speaks for; an earlier preference
/// goes before a later one.
pub open spec fn first_preferred(
    preferred: Seq<Seq<char>>,
    active: Seq<Option<PropsModel>>,
) -> Option<int>
    decreases preferred.len(),
{
    if preferred.len() == 0 {
        None
    } else {
        match first_match(RuleModel::Preferred(preferred[0]), active) {
            Some(i) => Some(i),
            None => first_preferred(preferred.skip(1), active),
        }
    }
}

/// The endpoint for a stream, from names, identifiers and preferences in
/// lowercase. The user's preference decides; then an iRig among the active
/// endpoints, then an iRig in any state. Without an iRig, capture has no
/// endpoint, and render takes an output or, at last, the system's default.
pub open spec fn choice_spec(
    flow: DataFlow,
    preferred: Seq<Seq<char>>,
    active: Seq<Option<PropsModel>>,
    all: Seq<Option<PropsModel>>,
) -> EndpointChoice {
    match first_preferred(preferred, active) {
        Some(i) => EndpointChoice::Active(i as usize),
        None => match first_match(RuleModel::Irig(flow), active) {
            Some(i) => EndpointChoice::Active(i as usize),
            None => match first_match(RuleModel::Irig(flow), all) {
                Some(i) => EndpointChoice::AnyState(i as usize),
                None => match flow {
                    DataFlow::Capture => EndpointChoice::NotFound,
                    DataFlow::Render => match first_match(RuleModel::Output, active) {
                        Some(i) => EndpointChoice::Active(i as usize),
                        None => EndpointChoice::SystemDefault,
                    },
                    DataFlow::All => EndpointChoice::SystemDefault,
                },
            },
        },
    }
}

fn find_preferred(preferred: &Vec<String>, active: &Vec<Option<EndpointProps>>) -> (r: Option<
    usize,
>)
    ensures
        (match r {
            Some(i) => Some(i as int),
            None => None,
        }) == first_preferred(texts(preferred@), endpoint_models(active@)),
{
    let ghost all = texts(preferred@);
    assert(all.skip(0) =~= all);
    let mut i: usize = 0;
    while i < preferred.len()
        invariant
            i <= preferred.len(),
            all == texts(preferred@),
            first_preferred(all.skip(i as int), endpoint_models(active@)) == first_preferred(
                all,
                endpoint_models(active@),
            ),
        decreases preferred.len() - i,
    {
        let rule = Rule::Preferred(preferred[i].clone());
        assert(all.skip(i as int)[0] == preferred@[i as int]@);
        assert(all.skip(i as int).skip(1) =~= all.skip(i + 1));
        let m = find_match(&rule, active);
        if m.is_some() {
            return m;
        }
        i += 1;
    }
    assert(all.skip(all.len() as int) =~= Seq::empty());
    None
}

/// The endpoint for a stream, from names, identifiers and preferences in
/// lowercase.
pub fn choose_endpoint(
    flow: DataFlow,
    preferred: &Vec<String>,
    active: &Vec<Option<EndpointProps>>,
    all: &Vec<Option<EndpointProps>>,
) -> (r: EndpointChoice)
    ensures
        r == choice_spec(
            flow,
            texts(preferred@),
            endpoint_models(active@),
            endpoint_models(all@),
        ),
{
    if let Some(i) = find_preferred(preferred, active) {
        return EndpointChoice::Active(i);
    }
    let irig = Rule::Irig(flow);
    if let Some(i) = find_match(&irig, active) {
        return EndpointChoice::Active(i);
    }
    if let Some(i) = find_match(&irig, all) {
        return EndpointChoice::AnyState(i);
    }
    match flow {
        DataFlow::Capture => EndpointChoice::NotFound,
        DataFlow::Render => match find_match(&Rule::Output, active) {
            Some(i) => EndpointChoice::Active(i),
            None => EndpointChoice::SystemDefault,
        },
        DataFlow::All => EndpointChoice::SystemDefault,
    }
}

/// The lowercase form of an optional text.
pub open spec fn lower_text(s: Option<Seq<char>>) -> Option<Seq<char>> {
    match s {
        Some(t) => Some(lowercase(t)),
        None => None,
    }
}

/// The lowercase form of an entry of an endpoint list.
pub open spec fn lower_entry(e: Option<PropsModel>) -> Option<PropsModel> {
    match e {
        Some(p) => Some(
            PropsModel { name: lower_text(p.name), interface_id: lower_text(p.interface_id) },
        ),
        None => None,
    }
}

/// The lowercase form of a list of endpoints.
pub open spec fn lower_entries(s: Seq<Option<PropsModel>>) -> Seq<Option<PropsModel>> {
    s.map_values(|e: Option<PropsModel>| lower_entry(e))
}

/// The lowercase forms of a list of texts.
pub open spec fn lower_texts(s: Seq<Seq<char>>) -> Seq<Seq<char>> {
    s.map_values(|t: Seq<char>| lowercase(t))
}

fn lower_option(s: &Option<String>) -> (r: Option<String>)
    ensures
        text_of(r) == lower_text(text_of(*s)),
{
    match s {
        Some(t) => Some(t.as_str().to_lowercase()),
        None => None,
    }
}

fn lower_list(list: &Vec<Option<EndpointProps>>) -> (r: Vec<Option<EndpointProps>>)
    ensures
        endpoint_models(r@) == lower_entries(endpoint_models(list@)),
{
    let mut r: Vec<Option<EndpointProps>> = Vec::new();
    let mut i: usize = 0;
    while i < list.len()
        invariant
            i <= list.len(),
            r.len() == i,
            forall|j: int|
                0 <= j < i ==> entry_model(#[trigger] r@[j]) == lower_entry(entry_model(list@[j])),
        decreases list.len() - i,
    {
        let e = match &list[i] {
            Some(p) => Some(
                EndpointProps {
                    name: lower_option(&p.name),
                    interface_id: lower_option(&p.interface_id),
                },
            ),
            None => None,
        };
        r.push(e);
        i += 1;
    }
    assert(endpoint_models(r@) =~= lower_entries(endpoint_models(list@)));
    r
}

fn lower_strings(list: &Vec<String>) -> (r: Vec<String>)
    ensures
        texts(r@) == lower_texts(texts(list@)),
{
    let mut r: Vec<String> = Vec::new();
    let mut i: usize = 0;
    while i < list.len()
        invariant
            i <= list.len(),
            r.len() == i,
            forall|j: int| 0 <= j < i ==> (#[trigger] r@[j])@ == lowercase(list@[j]@),
        decreases list.len() - i,
    {
        r.push(list[i].as_str().to_lowercase());
        i += 1;
    }
    assert(texts(r@) =~= lower_texts(texts(list@)));
    r
}

/// The preferences of an optional configuration.
pub open spec fn config_preferences(config: Option<Seq<char>>, flow: DataFlow) -> Seq<Seq<char>> {
    match config {
        Some(text) => preferences_spec(text, flow),
        None => Seq::empty(),
    }
}

/// The endpoint for a stream of the direction `flow`.
///
/// `config` is the text of the user's configuration, where there is one;
/// `active` and `all` are the active endpoints and those of all states. Letter
/// case plays no part.
pub fn find_endpoint(
    flow: DataFlow,
    config: &Option<String>,
    active: &Vec<Option<EndpointProps>>,
    all: &Vec<Option<EndpointProps>>,
) -> (r: EndpointChoice)
    ensures
        r == choice_spec(
            flow,
            lower_texts(config_preferences(text_of(*config), flow)),
            lower_entries(endpoint_models(active@)),
            lower_entries(endpoint_models(all@)),
        ),
{
    let preferred = match config {
        Some(text) => preferences(text.as_str(), flow),
        None => Vec::new(),
    };
    assert(config is None ==> texts(preferred@) =~= Seq::empty());
    let preferred = lower_strings(&preferred);
    let active = lower_list(active);
    let all = lower_list(all);
    choose_endpoint(flow, &preferred, &active, &all)
}

// ---------------------------------------------------------------------------
// Laws
// ---------------------------------------------------------------------------

/// The endpoint that a choice stands for, if it stands in one of the lists.
pub open spec fn chosen(
    choice: EndpointChoice,
    active: Seq<Option<PropsModel>>,
    all: Seq<Option<PropsModel>>,
) -> Option<PropsModel> {
    match choice {
        EndpointChoice::Active(i) => if i < active.len() {
            active[i as int]
        } else {
            None
        },
        EndpointChoice::AnyState(i) => if i < all.len() {
            all[i as int]
        } else {
            None
        },
        _ => None,
    }
}

/// One of the preferences speaks for the endpoint.
pub open spec fn is_preferred(preferred: Seq<Seq<char>>, p: PropsModel) -> bool {
    exists|k: int|
        0 <= k < preferred.len() && rule_fits(RuleModel::Preferred(#[trigger] preferred[k]), p)
}

proof fn lemma_first_preferred(preferred: Seq<Seq<char>>, active: Seq<Option<PropsModel>>)
    ensures
        match first_preferred(preferred, active) {
            Some(i) => 0 <= i < active.len() && active[i] is Some && is_preferred(
                preferred,
                active[i]->0,
            ),
            None => forall|i: int|
                0 <= i < active.len() && active[i] is Some ==> !is_preferred(
                    preferred,
                    (#[trigger] active[i])->0,
                ),
        },
    decreases preferred.len(),
{
    if preferred.len() > 0 {
        let rule = RuleModel::Preferred(preferred[0]);
        lemma_first_match(rule, active);
        let rest = preferred.skip(1);
        lemma_first_preferred(rest, active);
        match first_match(rule, active) {
            Some(i) => {
                assert(rule_fits(RuleModel::Preferred(preferred[0]), active[i]->0));
            },
            None => {
                match first_preferred(rest, active) {
                    Some(i) => {
                        let k = choose|k: int|
                            0 <= k < rest.len() && rule_fits(
                                RuleModel::Preferred(#[trigger] rest[k]),
                                active[i]->0,
                            );
                        assert(preferred[k + 1] == rest[k]);
                    },
                    None => {
                        assert forall|i: int|
                            0 <= i < active.len() && active[i] is Some implies !is_preferred(
                            preferred,
                            (#[trigger] active[i])->0,
                        ) by {
                            let p = active[i]->0;
                            if is_preferred(preferred, p) {
                                let k = choose|k: int|
                                    0 <= k < preferred.len() && rule_fits(
                                        RuleModel::Preferred(#[trigger] preferred[k]),
                                        p,
                                    );
                                if k > 0 {
                                    assert(rest[k - 1] == preferred[k]);
                                    assert(is_preferred(rest, p));
                                }
                            }
                        }
                    },
                }
            },
        }
    }
}

/// The user's preference goes first, for capture as for render: where it speaks
/// for an active endpoint, an active endpoint that it speaks for is chosen.
pub proof fn law_preference_first(
    flow: DataFlow,
    preferred: Seq<Seq<char>>,
    active: Seq<Option<PropsModel>>,
    all: Seq<Option<PropsModel>>,
    i: int,
)
    requires
        active.len() <= usize::MAX,
        0 <= i < active.len(),
        active[i] is Some,
        is_preferred(preferred, active[i]->0),
    ensures
        ({
            let choice = choice_spec(flow, preferred, active, all);
            let endpoint = chosen(choice, active, all);
            choice is Active && endpoint is Some && is_preferred(preferred, endpoint->0)
        }),
{
    lemma_first_preferred(preferred, active);
}

/// Capture is never taken from anything but an iRig, unless the user's preference
/// names it: the choice is an endpoint that belongs to an iRig or is preferred, or
/// none at all.
pub proof fn law_capture_only_from_irig(
    preferred: Seq<Seq<char>>,
    active: Seq<Option<PropsModel>>,
    all: Seq<Option<PropsModel>>,
)
    requires
        active.len() <= usize::MAX,
        all.len() <= usize::MAX,
    ensures
        ({
            let choice = choice_spec(DataFlow::Capture, preferred, active, all);
            let endpoint = chosen(choice, active, all);
            ||| choice == EndpointChoice::NotFound
            ||| endpoint is Some && (belongs_to_irig(endpoint->0) || is_preferred(
                preferred,
                endpoint->0,
            ))
        }),
{
    lemma_first_preferred(preferred, active);
    lemma_first_match(RuleModel::Irig(DataFlow::Capture), active);
    lemma_first_match(RuleModel::Irig(DataFlow::Capture), all);
}

/// Capture has an endpoint exactly if the user's preference names an active one
/// or some endpoint belongs to an iRig.
pub proof fn law_capture_finds_irig(
    preferred: Seq<Seq<char>>,
    active: Seq<Option<PropsModel>>,
    all: Seq<Option<PropsModel>>,
)
    ensures
        choice_spec(DataFlow::Capture, preferred, active, all) == EndpointChoice::NotFound <==> {
            &&& forall|i: int|
                0 <= i < active.len() && active[i] is Some ==> !belongs_to_irig(
                    (#[trigger] active[i])->0,
                ) && !is_preferred(preferred, active[i]->0)
            &&& forall|i: int|
                0 <= i < all.len() && all[i] is Some ==> !belongs_to_irig((#[trigger] all[i])->0)
        },
{
    lemma_first_preferred(preferred, active);
    lemma_first_match(RuleModel::Irig(DataFlow::Capture), active);
    lemma_first_match(RuleModel::Irig(DataFlow::Capture), all);
}

/// Render never ends on an input: unless the user's preference names it, the
/// chosen endpoint has no input's name.
pub proof fn law_render_never_on_an_input(
    preferred: Seq<Seq<char>>,
    active: Seq<Option<PropsModel>>,
    all: Seq<Option<PropsModel>>,
)
    requires
        active.len() <= usize::MAX,
        all.len() <= usize::MAX,
    ensures
        ({
            let choice = choice_spec(DataFlow::Render, preferred, active, all);
            let endpoint = chosen(choice, active, all);
            &&& choice != EndpointChoice::NotFound
            &&& choice != EndpointChoice::SystemDefault ==> endpoint is Some && {
                ||| !input_name(or_empty(endpoint->0.name))
                ||| is_preferred(preferred, endpoint->0)
            }
        }),
{
    lemma_first_preferred(preferred, active);
    lemma_first_match(RuleModel::Irig(DataFlow::Render), active);
    lemma_first_match(RuleModel::Irig(DataFlow::Render), all);
    lemma_first_match(RuleModel::Output, active);
}

// ---------------------------------------------------------------------------
// The choice in plain terms
// ---------------------------------------------------------------------------

/// The endpoint at `i` has a property that none before it has.
pub open spec fn is_first(
    s: Seq<Option<PropsModel>>,
    i: int,
    property: spec_fn(PropsModel) -> bool,
) -> bool {
    &&& 0 <= i < s.len()
    &&& s[i] is Some && property(s[i]->0)
    &&& forall|j: int| 0 <= j < i && s[j] is Some ==> !property((#[trigger] s[j])->0)
}

/// No endpoint has the property.
pub open spec fn has_none(s: Seq<Option<PropsModel>>, property: spec_fn(PropsModel) -> bool) -> bool {
    forall|j: int| 0 <= j < s.len() && s[j] is Some ==> !property((#[trigger] s[j])->0)
}

proof fn lemma_match_is_first(
    rule: RuleModel,
    s: Seq<Option<PropsModel>>,
    property: spec_fn(PropsModel) -> bool,
)
    requires
        forall|p: PropsModel| #[trigger] property(p) == rule_fits(rule, p),
    ensures
        match first_match(rule, s) {
            Some(i) => is_first(s, i, property),
            None => has_none(s, property),
        },
{
    lemma_first_match(rule, s);
}

proof fn lemma_nothing_in_nothing()
    ensures
        !(has(Seq::<char>::empty(), "irig"@)),
        !(has(Seq::<char>::empty(), "microfone"@)),
        !(has(Seq::<char>::empty(), "mic"@)),
        !(has(Seq::<char>::empty(), "input"@)),
        !(has(Seq::<char>::empty(), "entrada"@)),
{
    reveal_strlit("irig");
    reveal_strlit("microfone");
    reveal_strlit("mic");
    reveal_strlit("input");
    reveal_strlit("entrada");
}

/// Without a preference that speaks for an active endpoint, render goes to the
/// first active endpoint of an iRig, by its vendor or its name, that has no
/// input's name, else to the first such endpoint in any state, else to the first
/// active endpoint with the name of loudspeakers or headphones and of no input,
/// and to the system's default only where there is none.
pub proof fn law_render_choice(
    preferred: Seq<Seq<char>>,
    active: Seq<Option<PropsModel>>,
    all: Seq<Option<PropsModel>>,
)
    requires
        active.len() <= usize::MAX,
        all.len() <= usize::MAX,
        forall|j: int, k: int|
            0 <= j < active.len() && 0 <= k < preferred.len() && active[j] is Some
                && active[j]->0.name is Some ==> !(has(
                (#[trigger] active[j])->0.name->0,
                #[trigger] preferred[k],
            )),
    ensures
        ({
            let choice = choice_spec(DataFlow::Render, preferred, active, all);
            let input = |p: PropsModel|
                p.name is Some && (has(p.name->0, "microfone"@) || has(p.name->0, "mic"@) || has(
                    p.name->0,
                    "input"@,
                ) || has(p.name->0, "entrada"@));
            let irig = |p: PropsModel|
                !input(p) && (p.interface_id is Some && has(p.interface_id->0, "vid_1963"@)
                    || p.name is Some && has(p.name->0, "irig"@));
            let output = |p: PropsModel|
                !input(p) && p.name is Some && (has(p.name->0, "alto-falantes"@) || has(
                    p.name->0,
                    "speakers"@,
                ) || has(p.name->0, "headphone"@) || has(p.name->0, "fone"@) || has(
                    p.name->0,
                    "irig"@,
                ));
            &&& choice != EndpointChoice::NotFound
            &&& forall|i: int|
                #[trigger] is_first(active, i, irig) ==> choice == EndpointChoice::Active(
                    i as usize,
                )
            &&& has_none(active, irig) ==> forall|i: int|
                #[trigger] is_first(all, i, irig) ==> choice == EndpointChoice::AnyState(i as usize)
            &&& has_none(active, irig) && has_none(all, irig) ==> forall|i: int|
                #[trigger] is_first(active, i, output) ==> choice == EndpointChoice::Active(
                    i as usize,
                )
            &&& choice == EndpointChoice::SystemDefault <==> has_none(active, irig) && has_none(
                all,
                irig,
            ) && has_none(active, output)
        }),
{
    lemma_nothing_in_nothing();
    lemma_first_preferred(preferred, active);
    lemma_no_preference(preferred, active);
    let input = |p: PropsModel|
        p.name is Some && (has(p.name->0, "microfone"@) || has(p.name->0, "mic"@) || has(
            p.name->0,
            "input"@,
        ) || has(p.name->0, "entrada"@));
    let irig = |p: PropsModel|
        !input(p) && (p.interface_id is Some && has(p.interface_id->0, "vid_1963"@) || p.name is Some
            && has(p.name->0, "irig"@));
    let output = |p: PropsModel|
        !input(p) && p.name is Some && (has(p.name->0, "alto-falantes"@) || has(
            p.name->0,
            "speakers"@,
        ) || has(p.name->0, "headphone"@) || has(p.name->0, "fone"@) || has(p.name->0, "irig"@));
    lemma_match_is_first(RuleModel::Irig(DataFlow::Render), active, irig);
    lemma_match_is_first(RuleModel::Irig(DataFlow::Render), all, irig);
    lemma_match_is_first(RuleModel::Output, active, output);
}

proof fn lemma_no_preference(preferred: Seq<Seq<char>>, active: Seq<Option<PropsModel>>)
    requires
        forall|j: int, k: int|
            0 <= j < active.len() && 0 <= k < preferred.len() && active[j] is Some
                && active[j]->0.name is Some ==> !(has(
                (#[trigger] active[j])->0.name->0,
                #[trigger] preferred[k],
            )),
    ensures
        first_preferred(preferred, active) is None,
{
    lemma_first_preferred(preferred, active);
    if first_preferred(preferred, active) is Some {
        let i = first_preferred(preferred, active)->0;
        let p = active[i]->0;
        let k = choose|k: int|
            0 <= k < preferred.len() && rule_fits(RuleModel::Preferred(#[trigger] preferred[k]), p);
        assert(has(active[i]->0.name->0, preferred[k]));
    }
}

/// Without a preference that speaks for an active endpoint, capture is taken from
/// the first active endpoint of an iRig, by its vendor or its name, else from the
/// first such endpoint in any state, and there is none otherwise.
pub proof fn law_capture_choice(
    preferred: Seq<Seq<char>>,
    active: Seq<Option<PropsModel>>,
    all: Seq<Option<PropsModel>>,
)
    requires
        active.len() <= usize::MAX,
        all.len() <= usize::MAX,
        forall|j: int, k: int|
            0 <= j < active.len() && 0 <= k < preferred.len() && active[j] is Some
                && active[j]->0.name is Some ==> !(has(
                (#[trigger] active[j])->0.name->0,
                #[trigger] preferred[k],
            )),
    ensures
        ({
            let choice = choice_spec(DataFlow::Capture, preferred, active, all);
            let irig = |p: PropsModel|
                p.interface_id is Some && has(p.interface_id->0, "vid_1963"@) || p.name is Some
                    && has(p.name->0, "irig"@);
            &&& forall|i: int|
                #[trigger] is_first(active, i, irig) ==> choice == EndpointChoice::Active(
                    i as usize,
                )
            &&& has_none(active, irig) ==> forall|i: int|
                #[trigger] is_first(all, i, irig) ==> choice == EndpointChoice::AnyState(i as usize)
            &&& has_none(active, irig) && has_none(all, irig) <==> choice
                == EndpointChoice::NotFound
        }),
{
    lemma_nothing_in_nothing();
    lemma_no_preference(preferred, active);
    let irig = |p: PropsModel|
        p.interface_id is Some && has(p.interface_id->0, "vid_1963"@) || p.name is Some && has(
            p.name->0,
            "irig"@,
        );
    lemma_match_is_first(RuleModel::Irig(DataFlow::Capture), active, irig);
    lemma_match_is_first(RuleModel::Irig(DataFlow::Capture), all, irig);
}

/// A preference takes the first active endpoint whose name holds it; a later one
/// counts only where no earlier one speaks for any active endpoint. This holds for
/// every direction.
pub proof fn law_preference_choice(
    flow: DataFlow,
    preferred: Seq<Seq<char>>,
    active: Seq<Option<PropsModel>>,
    all: Seq<Option<PropsModel>>,
    k: int,
    i: int,
)
    requires
        active.len() <= usize::MAX,
        0 <= k < preferred.len(),
        0 <= i < active.len(),
        active[i] is Some,
        active[i]->0.name is Some,
        has(active[i]->0.name->0, preferred[k]),
        forall|j: int|
            0 <= j < i && active[j] is Some && active[j]->0.name is Some ==> !(has(
                (#[trigger] active[j])->0.name->0,
                preferred[k],
            )),
        forall|j: int, m: int|
            0 <= j < active.len() && 0 <= m < k && active[j] is Some && active[j]->0.name is Some
                ==> !(has((#[trigger] active[j])->0.name->0, #[trigger] preferred[m])),
    ensures
        choice_spec(flow, preferred, active, all) == EndpointChoice::Active(i as usize),
    decreases preferred.len(),
{
    let rule = RuleModel::Preferred(preferred[0]);
    lemma_first_match(rule, active);
    if k == 0 {
        assert(rule_fits(rule, active[i]->0));
        let f = first_match(rule, active)->0;
        if f < i {
            assert(has(active[f]->0.name->0, preferred[0]));
        }
    } else {
        let rest = preferred.skip(1);
        if first_match(rule, active) is Some {
            let f = first_match(rule, active)->0;
            assert(has(active[f]->0.name->0, preferred[0]));
        }
        assert(rest[k - 1] == preferred[k]);
        assert forall|j: int, m: int|
            0 <= j < active.len() && 0 <= m < k - 1 && active[j] is Some && active[j]->0.name
                is Some implies !(has(
            (#[trigger] active[j])->0.name->0,
            #[trigger] rest[m],
        )) by {
            assert(rest[m] == preferred[m + 1]);
        }
        law_preference_choice(flow, rest, active, all, k - 1, i);
        lemma_choice_by_preference(flow, preferred, rest, active, all);
    }
}

proof fn lemma_choice_by_preference(
    flow: DataFlow,
    preferred: Seq<Seq<char>>,
    rest: Seq<Seq<char>>,
    active: Seq<Option<PropsModel>>,
    all: Seq<Option<PropsModel>>,
)
    requires
        first_preferred(preferred, active) == first_preferred(rest, active),
    ensures
        choice_spec(flow, preferred, active, all) == choice_spec(flow, rest, active, all),
{
}

/// A line that names the preferred device of a direction, by its own word, holds
/// the device behind its first colon; what stands before, and spaces, quotes and
/// commas around the name, do not count.
pub proof fn law_line_names_a_device(
    flow: DataFlow,
    before: Seq<char>,
    name: Seq<char>,
    after: Seq<char>,
)
    requires
        flow == DataFlow::Capture ==> has(before, "preferred_input_device"@),
        flow != DataFlow::Capture ==> has(before, "preferred_render_device"@),
        !before.contains(':'),
        name.len() > 0,
        !(name[0] == '"' || name[0] == ',' || name[0] == ' '),
        !(name.last() == '"' || name.last() == ',' || name.last() == ' '),
        after.len() == 0 || after == seq![','],
    ensures
        line_preference(
            before + seq![':', ' ', '"'] + name + seq!['"'] + after,
            preference_key(flow),
        ) == name,
{
    let key = preference_key(flow);
    let line = before + seq![':', ' ', '"'] + name + seq!['"'] + after;
    let at = choose|at: int| occurs_at(before, key, at);
    assert(line.subrange(at, at + key.len()) =~= before.subrange(at, at + key.len()));
    assert(occurs_at(line, key, at));
    assert forall|i: int| 0 <= i < before.len() implies line[i] != ':' by {
        assert(before.contains(before[i]));
    }
    lemma_position_is(line, ':', before.len() as int);
    let rest = line.skip(before.len() as int + 1);
    let quoted = seq!['"'] + name + seq!['"'] + after;
    assert(rest =~= seq![' '] + quoted);
    assert(rest.drop_first() =~= quoted);
    reveal_with_fuel(trim_start, 2);
    assert(trim_start(rest, TrimSet::Whitespace) == quoted);
    assert(quoted.last() == '"' || quoted.last() == ',');
    assert(trim_end(quoted, TrimSet::Whitespace) == quoted);
    let open = name + seq!['"'] + after;
    assert(quoted.drop_first() =~= open);
    assert(open[0] == name[0]);
    assert(trim_start(quoted, TrimSet::Quotes) == open);
    reveal_with_fuel(trim_end, 3);
    if after.len() == 0 {
        assert(open.drop_last() =~= name);
    } else {
        assert(open.drop_last().drop_last() =~= name);
        assert(open.drop_last().last() == '"');
    }
    assert(trim_end(open, TrimSet::Quotes) == name);
}

/// A line without the word of the direction, or without a colon, names nothing;
/// what the lines name is collected line by line, in their order.
pub proof fn law_other_lines_name_nothing(flow: DataFlow, line: Seq<char>, rest: Seq<Seq<char>>)
    ensures
        flow == DataFlow::Capture && !(has(line, "preferred_input_device"@)) ==> line_preference(
            line,
            preference_key(flow),
        ).len() == 0,
        flow != DataFlow::Capture && !(has(line, "preferred_render_device"@)) ==> line_preference(
            line,
            preference_key(flow),
        ).len() == 0,
        !line.contains(':') ==> line_preference(line, preference_key(flow)).len() == 0,
        line_preferences(seq![line] + rest, preference_key(flow)) == (if line_preference(
            line,
            preference_key(flow),
        ).len() == 0 {
            line_preferences(rest, preference_key(flow))
        } else {
            seq![line_preference(line, preference_key(flow))] + line_preferences(
                rest,
                preference_key(flow),
            )
        }),
{
    lemma_position(line, ':');
    let all = seq![line] + rest;
    assert(all[0] == line);
    assert(all.skip(1) =~= rest);
}

/// Letter case plays no part: every name, identifier and preference is taken in
/// lowercase, and nothing else of a list changes.
pub proof fn law_lists_in_lowercase(s: Seq<Option<PropsModel>>, t: Seq<Seq<char>>, i: int)
    ensures
        lower_entries(s).len() == s.len(),
        lower_texts(t).len() == t.len(),
        0 <= i < t.len() ==> lower_texts(t)[i] == lowercase(t[i]),
        0 <= i < s.len() ==> (lower_entries(s)[i] is Some <==> s[i] is Some),
        0 <= i < s.len() && s[i] is Some ==> {
            &&& lower_entries(s)[i]->0.name is Some <==> s[i]->0.name is Some
            &&& s[i]->0.name is Some ==> lower_entries(s)[i]->0.name->0 == lowercase(
                s[i]->0.name->0,
            )
            &&& lower_entries(s)[i]->0.interface_id is Some <==> s[i]->0.interface_id is Some
            &&& s[i]->0.interface_id is Some ==> lower_entries(s)[i]->0.interface_id->0 == lowercase(
                s[i]->0.interface_id->0,
            )
        },
{
}

/// A configuration is read line by line, in its order: what its first line names,
/// then what the others name. Without a configuration there are no preferences.
pub proof fn law_configuration_line_by_line(flow: DataFlow, line: Seq<char>, rest: Seq<char>)
    requires
        !line.contains('\n'),
        line.len() == 0 || line.last() != '\r',
    ensures
        config_preferences(None, flow).len() == 0,
        config_preferences(Some(Seq::empty()), flow).len() == 0,
        ({
            let named = line_preference(line, preference_key(flow));
            let others = config_preferences(Some(rest), flow);
            config_preferences(Some(line + seq!['\n'] + rest), flow) == (if named.len() == 0 {
                others
            } else {
                seq![named] + others
            })
        }),
{
    law_lines(line, rest);
    law_other_lines_name_nothing(flow, line, lines(rest));
    assert(lines(Seq::<char>::empty()) =~= Seq::empty());
}

/// Where no direction is asked for, an iRig is taken as for capture, and the
/// system's default where there is none.
pub proof fn law_any_direction_choice(
    active: Seq<Option<PropsModel>>,
    all: Seq<Option<PropsModel>>,
)
    ensures
        ({
            let any = choice_spec(DataFlow::All, Seq::empty(), active, all);
            let capture = choice_spec(DataFlow::Capture, Seq::empty(), active, all);
            any == (if capture == EndpointChoice::NotFound {
                EndpointChoice::SystemDefault
            } else {
                capture
            })
        }),
{
    lemma_same_match(active);
    lemma_same_match(all);
}

proof fn lemma_same_match(s: Seq<Option<PropsModel>>)
    ensures
        first_match(RuleModel::Irig(DataFlow::All), s) == first_match(
            RuleModel::Irig(DataFlow::Capture),
            s,
        ),
    decreases s.len(),
{
    if s.len() > 0 {
        lemma_same_match(s.drop_last());
    }
}

/// Endpoints, rules and texts are what their fields and entries say.
pub proof fn law_views_of_endpoints(
    p: EndpointProps,
    list: Seq<Option<EndpointProps>>,
    t: Seq<String>,
    i: int,
    text: String,
    flow: DataFlow,
)
    ensures
        p@.name is Some <==> p.name is Some,
        p.name is Some ==> p@.name->0 == p.name->0@,
        p@.interface_id is Some <==> p.interface_id is Some,
        p.interface_id is Some ==> p@.interface_id->0 == p.interface_id->0@,
        endpoint_models(list).len() == list.len(),
        0 <= i < list.len() ==> (endpoint_models(list)[i] is Some <==> list[i] is Some),
        0 <= i < list.len() && list[i] is Some ==> endpoint_models(list)[i]->0 == list[i]->0@,
        texts(t).len() == t.len(),
        0 <= i < t.len() ==> texts(t)[i] == t[i]@,
        Rule::Preferred(text)@ == RuleModel::Preferred(text@),
        Rule::Irig(flow)@ == RuleModel::Irig(flow),
        Rule::Output@ == RuleModel::Output,
{
}

} // verus!
