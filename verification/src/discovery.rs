//! Home Assistant MQTT discovery: topic shape and shared payload types.
//!
//! ESPHome publishes discovery using Home Assistant's *abbreviated* keys
//! (`stat_t`, `cmd_t`, ...), retained, under:
//!
//! ```text
//! homeassistant/<component>/<node_id>/<object_id>/config
//! ```
//!
//! `<component>` (e.g. `switch`) selects which device type handles the
//! payload.

use vstd::prelude::*;

use crate::error::Error;
use crate::text::{chars_of, same_text, starts_with};

verus! {

/// The discovery prefix every HA discovery topic starts with.
pub const DEFAULT_PREFIX: &'static str = "homeassistant";

/// The parts of a discovery topic, as text.
#[verifier::ext_equal]
pub struct TopicParts {
    pub component: Seq<char>,
    pub node_id: Seq<char>,
    pub object_id: Seq<char>,
}

pub open spec fn no_slash(s: Seq<char>) -> bool {
    forall|i: int| 0 <= i < s.len() ==> s[i] != '/'
}

/// `<prefix>/<component>/<node_id>/<object_id>/config`.
pub open spec fn long_topic(prefix: Seq<char>, parts: TopicParts) -> Seq<char> {
    prefix + seq!['/'] + parts.component + seq!['/'] + parts.node_id + seq!['/'] + parts.object_id
        + "/config"@
}

/// `<prefix>/<component>/<object_id>/config`.
pub open spec fn short_topic(prefix: Seq<char>, parts: TopicParts) -> Seq<char> {
    prefix + seq!['/'] + parts.component + seq!['/'] + parts.object_id + "/config"@
}

/// `topic` is the discovery topic under `prefix` with these parts, in the long
/// form or, without a node id, in the short one. No part holds a slash.
pub open spec fn is_discovery_topic(
    prefix: Seq<char>,
    topic: Seq<char>,
    parts: TopicParts,
) -> bool {
    &&& no_slash(parts.component)
    &&& no_slash(parts.node_id)
    &&& no_slash(parts.object_id)
    &&& (topic == long_topic(prefix, parts) || (parts.node_id.len() == 0 && topic == short_topic(
        prefix,
        parts,
    )))
}

/// The parts of a parsed discovery `config` topic.
#[derive(Debug, Clone, PartialEq, Eq)]
pub struct DiscoveryTopic<'a> {
    /// e.g. `switch`, `sensor`: selects the device type.
    pub component: &'a str,
    /// e.g. `examplelamp`.
    pub node_id: &'a str,
    /// e.g. `example_lamp_switch`.
    pub object_id: &'a str,
}

impl<'a> View for DiscoveryTopic<'a> {
    type V = TopicParts;

    open spec fn view(&self) -> TopicParts {
        TopicParts {
            component: self.component@,
            node_id: self.node_id@,
            object_id: self.object_id@,
        }
    }
}

/// The text between `<prefix>/` and `/config`.
spec fn middle(prefix: Seq<char>, topic: Seq<char>) -> Seq<char> {
    topic.subrange(prefix.len() as int + 1, topic.len() - 7)
}

/// `topic` is `<prefix>/`, the middle, `/config`.
spec fn framed(prefix: Seq<char>, topic: Seq<char>) -> bool {
    &&& topic.len() >= prefix.len() + 8
    &&& topic == prefix + seq!['/'] + middle(prefix, topic) + "/config"@
}

/// `at` lists the slashes of `s`, in order.
spec fn slashes(s: Seq<char>, at: Seq<usize>) -> bool {
    &&& forall|k: int| 0 <= k < at.len() ==> 0 <= (#[trigger] at[k]) < s.len() && s[at[k] as int] == '/'
    &&& forall|k: int, l: int| 0 <= k < l < at.len() ==> at[k] < at[l]
    &&& forall|i: int|
        0 <= i < s.len() && #[trigger] s[i] == '/' ==> exists|k: int|
            0 <= k < at.len() && at[k] == i
}

/// Every discovery topic has the frame, and its middle is the parts with
/// slashes between them.
proof fn lemma_framed(prefix: Seq<char>, topic: Seq<char>, parts: TopicParts)
    requires
        is_discovery_topic(prefix, topic, parts),
    ensures
        framed(prefix, topic),
        topic == long_topic(prefix, parts) ==> middle(prefix, topic) == parts.component + seq!['/']
            + parts.node_id + seq!['/'] + parts.object_id,
        topic != long_topic(prefix, parts) ==> middle(prefix, topic) == parts.component + seq!['/']
            + parts.object_id,
{
    reveal_strlit("/config");
    let m = middle(prefix, topic);
    if topic == long_topic(prefix, parts) {
        assert(m =~= parts.component + seq!['/'] + parts.node_id + seq!['/'] + parts.object_id);
    } else {
        assert(m =~= parts.component + seq!['/'] + parts.object_id);
    }
    assert(topic =~= prefix + seq!['/'] + m + "/config"@);
}

/// The middle of a discovery topic holds one or two slashes, at the ends of
/// the component and of the node id.
proof fn lemma_shape(prefix: Seq<char>, topic: Seq<char>, parts: TopicParts, at: Seq<usize>)
    requires
        is_discovery_topic(prefix, topic, parts),
        slashes(middle(prefix, topic), at),
    ensures
        topic == long_topic(prefix, parts) ==> {
            &&& at.len() == 2
            &&& at[0] == parts.component.len()
            &&& at[1] == parts.component.len() + 1 + parts.node_id.len()
        },
        topic != long_topic(prefix, parts) ==> {
            &&& at.len() == 1
            &&& at[0] == parts.component.len()
        },
{
    lemma_framed(prefix, topic, parts);
    let c = parts.component;
    let n = parts.node_id;
    let o = parts.object_id;
    let m = middle(prefix, topic);
    if topic == long_topic(prefix, parts) {
        let a = c.len() as int;
        let b = c.len() + 1 + n.len() as int;
        assert(m[a] == '/');
        assert(m[b] == '/');
        assert forall|i: int| 0 <= i < m.len() && m[i] == '/' implies i == a || i == b by {
            if i < a {
                assert(m[i] == c[i]);
            } else if a < i && i < b {
                assert(m[i] == n[i - a - 1]);
            } else if i > b {
                assert(m[i] == o[i - b - 1]);
            }
        }
        let k = choose|k: int| 0 <= k < at.len() && at[k] == a;
        let l = choose|l: int| 0 <= l < at.len() && at[l] == b;
        assert(at[k] == a && at[l] == b);
        assert(k < l);
        assert(k == 0) by {
            assert(at[0] == a || at[0] == b);
        }
        assert(l == 1) by {
            assert(at[1] == a || at[1] == b);
        }
        if at.len() > 2 {
            assert(at[2] == a || at[2] == b);
        }
    } else {
        let a = c.len() as int;
        assert(m[a] == '/');
        assert forall|i: int| 0 <= i < m.len() && m[i] == '/' implies i == a by {
            if i < a {
                assert(m[i] == c[i]);
            } else if i > a {
                assert(m[i] == o[i - a - 1]);
            }
        }
        let k = choose|k: int| 0 <= k < at.len() && at[k] == a;
        assert(at[k] == a);
        assert(at[0] == a);
        if at.len() > 1 {
            assert(at[1] == a);
        }
    }
}

/// A piece between two slashes holds none.
proof fn lemma_piece(s: Seq<char>, at: Seq<usize>, from: int, to: int)
    requires
        slashes(s, at),
        0 <= from <= to <= s.len(),
        forall|k: int| 0 <= k < at.len() ==> !(from <= #[trigger] at[k] < to),
    ensures
        no_slash(s.subrange(from, to)),
{
    let piece = s.subrange(from, to);
    assert forall|i: int| 0 <= i < piece.len() implies piece[i] != '/' by {
        assert(piece[i] == s[from + i]);
    }
}

/// Lists the slashes of a piece of text.
fn find_slashes(s: &str) -> (at: Vec<usize>)
    ensures
        slashes(s@, at@),
{
    let chars = chars_of(s);
    let mut at: Vec<usize> = Vec::new();
    let mut i: usize = 0;
    while i < chars.len()
        invariant
            i <= chars@.len(),
            chars@ == s@,
            forall|k: int|
                0 <= k < at@.len() ==> 0 <= (#[trigger] at@[k]) < i && s@[at@[k] as int] == '/',
            forall|k: int, l: int| 0 <= k < l < at@.len() ==> at@[k] < at@[l],
            forall|j: int|
                0 <= j < i && #[trigger] s@[j] == '/' ==> exists|k: int|
                    0 <= k < at@.len() && at@[k] == j,
        decreases chars@.len() - i,
    {
        let ghost before = at@;
        if chars[i] == '/' {
            at.push(i);
            assert(at@[before.len() as int] == i);
        }
        assert forall|j: int| 0 <= j < i + 1 && #[trigger] s@[j] == '/' implies exists|k: int|
            0 <= k < at@.len() && at@[k] == j by {
            if j < i {
                let k = choose|k: int| 0 <= k < before.len() && before[k] == j;
                assert(at@[k] == j);
            }
        }
        i = i + 1;
    }
    at
}

impl<'a> DiscoveryTopic<'a> {
    /// Parse `<prefix>/<component>/<node_id>/<object_id>/config`.
    ///
    /// Returns `Err` (never panics) when the topic doesn't match the shape or
    /// prefix. HA also allows a node-less `<prefix>/<component>/<object_id>/config`
    /// form; both are accepted and `node_id` is left empty for the short form.
    pub fn parse(prefix: &str, topic: &'a str) -> (r: Result<DiscoveryTopic<'a>, Error>)
        ensures
            match r {
                Ok(t) => is_discovery_topic(prefix@, topic@, t@),
                Err(e) => {
                    &&& e matches Error::DiscoveryTopic(text) && text@ == topic@
                    &&& forall|parts: TopicParts| !is_discovery_topic(prefix@, topic@, parts)
                },
            },
    {
        proof {
            reveal_strlit("/config");
            assert forall|parts: TopicParts|
                is_discovery_topic(prefix@, topic@, parts) implies framed(prefix@, topic@) by {
                lemma_framed(prefix@, topic@, parts);
            }
            if framed(prefix@, topic@) {
                let p = prefix@.len() as int;
                let n = topic@.len() as int;
                let m = middle(prefix@, topic@);
                let whole = prefix@ + seq!['/'] + m + "/config"@;
                assert(whole.take(p) =~= prefix@);
                assert(whole[p] == '/');
                assert(whole.subrange(n - 7, n) =~= "/config"@);
            }
        }
        let n: usize = topic.unicode_len();
        let p: usize = prefix.unicode_len();
        if n < 8 || n - 8 < p || !starts_with(topic, prefix) || topic.get_char(p) != '/' {
            return Err(Error::DiscoveryTopic(topic.to_owned()));
        }
        let tail = topic.substring_char(n - 7, n);
        if !same_text(tail, "/config") {
            return Err(Error::DiscoveryTopic(topic.to_owned()));
        }
        let rest = topic.substring_char(p + 1, n - 7);
        assert(rest@ == middle(prefix@, topic@));
        assert(topic@ =~= prefix@ + seq!['/'] + rest@ + "/config"@);
        let at = find_slashes(rest);
        let m: usize = rest.unicode_len();
        if at.len() == 2 {
            let t = DiscoveryTopic {
                component: rest.substring_char(0, at[0]),
                node_id: rest.substring_char(at[0] + 1, at[1]),
                object_id: rest.substring_char(at[1] + 1, m),
            };
            proof {
                lemma_piece(rest@, at@, 0, at@[0] as int);
                lemma_piece(rest@, at@, at@[0] + 1, at@[1] as int);
                lemma_piece(rest@, at@, at@[1] + 1, rest@.len() as int);
                assert(topic@ =~= long_topic(prefix@, t@));
            }
            Ok(t)
        } else if at.len() == 1 {
            let t = DiscoveryTopic {
                component: rest.substring_char(0, at[0]),
                node_id: "",
                object_id: rest.substring_char(at[0] + 1, m),
            };
            proof {
                reveal_strlit("");
                lemma_piece(rest@, at@, 0, at@[0] as int);
                lemma_piece(rest@, at@, at@[0] + 1, rest@.len() as int);
                assert(topic@ =~= short_topic(prefix@, t@));
            }
            Ok(t)
        } else {
            proof {
                assert forall|parts: TopicParts| !is_discovery_topic(prefix@, topic@, parts) by {
                    if is_discovery_topic(prefix@, topic@, parts) {
                        lemma_shape(prefix@, topic@, parts, at@);
                    }
                }
            }
            Err(Error::DiscoveryTopic(topic.to_owned()))
        }
    }
}

/// The `dev` object shared by every discovery payload: identifies the
/// physical device behind one or more entities.
#[derive(Debug, Clone, PartialEq, Eq)]
pub struct DeviceInfo {
    /// `ids`: stable device identifier (e.g. the ESP MAC).
    pub identifiers: String,
    pub name: String,
    /// `sw`: software/firmware version.
    pub sw_version: String,
    /// `mdl`: model.
    pub model: String,
    /// `mf`: manufacturer.
    pub manufacturer: String,
    /// `cns`: connections, each `[type, value]` (e.g. `["mac", "aabb.."]`).
    pub connections: Vec<(String, String)>,
}

/// The discovery payload for a `switch` component: only the fields the bridge
/// needs.
#[derive(Debug, Clone, PartialEq, Eq)]
pub struct SwitchConfig {
    pub name: String,
    /// `stat_t`: topic carrying `ON`/`OFF`.
    pub state_topic: String,
    /// `cmd_t`: topic accepting `ON`/`OFF`.
    pub command_topic: String,
    /// `avty_t`: topic carrying `online`/`offline`.
    pub availability_topic: Option<String>,
    /// `uniq_id`: stable unique entity id.
    pub unique_id: String,
    pub device: DeviceInfo,
}

/// What a payload received on `topic` is read as, once it has been decoded: the
/// configuration, or an error that names the topic and carries the report.
pub open spec fn is_reading(
    topic: Seq<char>,
    decoded: Result<SwitchConfig, String>,
    r: Result<SwitchConfig, Error>,
) -> bool {
    match decoded {
        Ok(config) => r == Ok::<SwitchConfig, Error>(config),
        Err(report) => r matches Err(Error::Discovery { topic: t, source }) && t@ == topic
            && source == report,
    }
}

impl SwitchConfig {
    /// What becomes of a payload received on `topic`, once it has been decoded
    /// from JSON: the configuration, or an error that names the topic and
    /// carries what the decoder reported.
    pub fn parse(topic: &str, decoded: Result<SwitchConfig, String>) -> (r: Result<
        SwitchConfig,
        Error,
    >)
        ensures
            is_reading(topic@, decoded, r),
    {
        match decoded {
            Ok(config) => Ok(config),
            Err(report) => Err(Error::Discovery { topic: topic.to_owned(), source: report }),
        }
    }
}

/// The topic has no influence on a success: payloads that decode alike are read
/// alike, on whatever topics. A failure names the topic of its own message.
pub proof fn law_topics_do_not_decide(
    topic: Seq<char>,
    other: Seq<char>,
    decoded: Result<SwitchConfig, String>,
    r: Result<SwitchConfig, Error>,
    s: Result<SwitchConfig, Error>,
)
    requires
        is_reading(topic, decoded, r),
        is_reading(other, decoded, s),
    ensures
        r is Ok <==> s is Ok,
        r is Ok ==> r == s,
        r is Err ==> {
            &&& r->Err_0 matches Error::Discovery { topic: t, source }
            &&& t@ == topic
        },
        s is Err ==> {
            &&& s->Err_0 matches Error::Discovery { topic: t, source }
            &&& t@ == other
        },
{
}

proof fn lemma_first_slash(a: Seq<char>, x: Seq<char>, b: Seq<char>, y: Seq<char>)
    requires
        no_slash(a),
        no_slash(b),
        a + seq!['/'] + x == b + seq!['/'] + y,
    ensures
        a == b,
        x == y,
{
    let s = a + seq!['/'] + x;
    let t = b + seq!['/'] + y;
    assert(s[a.len() as int] == '/');
    assert(t[b.len() as int] == '/');
    if a.len() < b.len() {
        assert(t[a.len() as int] == b[a.len() as int]);
    }
    if b.len() < a.len() {
        assert(s[b.len() as int] == a[b.len() as int]);
    }
    assert(a =~= s.take(a.len() as int));
    assert(b =~= t.take(b.len() as int));
    assert(x =~= s.skip(a.len() as int + 1));
    assert(y =~= t.skip(b.len() as int + 1));
}

/// A topic has at most one reading: what `DiscoveryTopic::parse` returns is
/// fixed by the prefix and the topic.
pub proof fn law_reading_is_unique(
    prefix: Seq<char>,
    topic: Seq<char>,
    left: TopicParts,
    right: TopicParts,
)
    requires
        is_discovery_topic(prefix, topic, left),
        is_discovery_topic(prefix, topic, right),
    ensures
        left == right,
{
    lemma_framed(prefix, topic, left);
    lemma_framed(prefix, topic, right);
    let m = middle(prefix, topic);
    let tail_of = |p: TopicParts|
        if topic == long_topic(prefix, p) {
            p.node_id + seq!['/'] + p.object_id
        } else {
            p.object_id
        };
    let x = tail_of(left);
    let y = tail_of(right);
    assert(m =~= left.component + seq!['/'] + x);
    assert(m =~= right.component + seq!['/'] + y);
    lemma_first_slash(left.component, x, right.component, y);
    let long_left = topic == long_topic(prefix, left);
    let long_right = topic == long_topic(prefix, right);
    if long_left && long_right {
        lemma_first_slash(left.node_id, left.object_id, right.node_id, right.object_id);
    } else if long_left {
        assert(x[left.node_id.len() as int] == '/');
    } else if long_right {
        assert(y[right.node_id.len() as int] == '/');
    } else {
        assert(left.node_id =~= right.node_id);
    }
}

/// The parts that a long or a short topic was made of are the ones that
/// parsing it gives back.
pub proof fn law_written_topic_reads_back(prefix: Seq<char>, parts: TopicParts)
    requires
        no_slash(parts.component),
        no_slash(parts.node_id),
        no_slash(parts.object_id),
    ensures
        is_discovery_topic(prefix, long_topic(prefix, parts), parts),
        forall|read: TopicParts|
            is_discovery_topic(prefix, long_topic(prefix, parts), read) ==> read == parts,
        parts.node_id.len() == 0 ==> is_discovery_topic(prefix, short_topic(prefix, parts), parts),
        parts.node_id.len() == 0 ==> forall|read: TopicParts|
            is_discovery_topic(prefix, short_topic(prefix, parts), read) ==> read == parts,
{
    assert forall|read: TopicParts|
        is_discovery_topic(prefix, long_topic(prefix, parts), read) implies read == parts by {
        law_reading_is_unique(prefix, long_topic(prefix, parts), read, parts);
    }
    if parts.node_id.len() == 0 {
        assert forall|read: TopicParts|
            is_discovery_topic(prefix, short_topic(prefix, parts), read) implies read == parts by {
            law_reading_is_unique(prefix, short_topic(prefix, parts), read, parts);
        }
    }
}

/// Every discovery topic starts with the prefix and a slash and ends with
/// `/config`: a topic that does not is refused.
pub proof fn law_discovery_topics_are_framed(
    prefix: Seq<char>,
    topic: Seq<char>,
    parts: TopicParts,
)
    requires
        is_discovery_topic(prefix, topic, parts),
    ensures
        crate::text::starts(topic, prefix + seq!['/'] + parts.component + seq!['/']),
        crate::text::ends(topic, "/config"@),
{
    reveal_strlit("/config");
    let head = prefix + seq!['/'] + parts.component + seq!['/'];
    if topic == long_topic(prefix, parts) {
        let rest = parts.node_id + seq!['/'] + parts.object_id + "/config"@;
        assert(topic =~= head + rest);
    } else {
        assert(topic =~= head + (parts.object_id + "/config"@));
    }
    assert(topic.take(head.len() as int) =~= head);
    assert(topic.skip(topic.len() - 7) =~= "/config"@);
}

/// A topic is a discovery topic exactly if it is written
/// `<prefix>/<component>/<node_id>/<object_id>/config` or, without a node id,
/// `<prefix>/<component>/<object_id>/config`, where no part holds a slash. All
/// such topics are, however long.
pub proof fn law_discovery_topics_are_written(
    prefix: Seq<char>,
    topic: Seq<char>,
    parts: TopicParts,
)
    ensures
        is_discovery_topic(prefix, topic, parts) <==> {
            &&& forall|i: int| 0 <= i < parts.component.len() ==> parts.component[i] != '/'
            &&& forall|i: int| 0 <= i < parts.node_id.len() ==> parts.node_id[i] != '/'
            &&& forall|i: int| 0 <= i < parts.object_id.len() ==> parts.object_id[i] != '/'
            &&& {
                ||| topic == prefix + seq!['/'] + parts.component + seq!['/'] + parts.node_id
                    + seq!['/'] + parts.object_id + seq!['/', 'c', 'o', 'n', 'f', 'i', 'g']
                ||| parts.node_id.len() == 0 && topic == prefix + seq!['/'] + parts.component
                    + seq!['/'] + parts.object_id + seq!['/', 'c', 'o', 'n', 'f', 'i', 'g']
            }
        },
{
    reveal_strlit("/config");
    assert("/config"@ =~= seq!['/', 'c', 'o', 'n', 'f', 'i', 'g']);
}

/// The parts of a topic are the texts that the caller sees.
pub proof fn law_parts_are_shown(t: DiscoveryTopic)
    ensures
        t@.component == t.component@,
        t@.node_id == t.node_id@,
        t@.object_id == t.object_id@,
{
}

/// What was decoded is what is bridged, with nothing changed; what the decoder
/// reported is passed on as it was.
pub proof fn law_decoded_payloads_pass(
    topic: Seq<char>,
    config: SwitchConfig,
    report: String,
    r: Result<SwitchConfig, Error>,
)
    ensures
        is_reading(topic, Ok(config), r) <==> r == Ok::<SwitchConfig, Error>(config),
        is_reading(topic, Err(report), r) <==> {
            &&& r matches Err(Error::Discovery { topic: t, source })
            &&& t@ == topic
            &&& source == report
        },
{
}

} // verus!
