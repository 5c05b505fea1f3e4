//! The state of the kernel and its features, as JSON.

use crate::feature::{FeatureId, ALL_FEATURES};
use crate::json;
use crate::number;
use crate::text;
use vstd::prelude::*;

verus! {

/// What the kernel said about a feature.
#[derive(Clone, Copy, Debug)]
pub struct Reading {
    /// The number of the feature.
    pub id: u32,
    /// The value of the feature and whether the kernel supports it, if the
    /// kernel answered.
    pub state: Option<(u64, bool)>,
}

/// What the status shows.
#[derive(Debug)]
pub struct Status {
    pub version_name: String,
    pub full_version: String,
    pub kernel_version_code: i64,
    pub kernel_features: u64,
    pub uapi_version: u64,
    pub port: u16,
    /// A reading for each of [`ALL_FEATURES`], in that order.
    pub readings: [Reading; 6],
}

/// The model of [`Status`].
pub struct StatusView {
    pub version_name: Seq<char>,
    pub full_version: Seq<char>,
    pub kernel_version_code: int,
    pub kernel_features: nat,
    pub uapi_version: nat,
    pub port: nat,
    pub readings: Seq<Reading>,
}

impl View for Status {
    type V = StatusView;

    open spec fn view(&self) -> StatusView {
        StatusView {
            version_name: self.version_name@,
            full_version: self.full_version@,
            kernel_version_code: self.kernel_version_code as int,
            kernel_features: self.kernel_features as nat,
            uapi_version: self.uapi_version as nat,
            port: self.port as nat,
            readings: self.readings@,
        }
    }
}

/// The value that is shown of a feature: zero where the kernel did not answer.
pub open spec fn shown_value(r: Reading) -> u64 {
    match r.state {
        Some((value, _)) => value,
        None => 0,
    }
}

/// Whether a feature is shown as supported: not where the kernel did not answer.
pub open spec fn shown_supported(r: Reading) -> bool {
    match r.state {
        Some((_, supported)) => supported,
        None => false,
    }
}

/// The JSON object of a feature.
pub open spec fn feature_json(f: FeatureId, r: Reading) -> Seq<char> {
    "{\"id\":"@ + number::decimal(r.id as nat) + ",\"name\":\""@ + f.spec_name()
        + "\",\"value\":"@ + number::decimal(shown_value(r) as nat) + ",\"supported\":"@ + json::boolean(
        shown_supported(r),
    ) + "}"@
}

/// The JSON objects of the first `n` features.
pub open spec fn feature_list(readings: Seq<Reading>, n: nat) -> Seq<Seq<char>> {
    Seq::new(n, |i: int| feature_json(ALL_FEATURES@[i], readings[i]))
}

/// The JSON object of the status.
pub open spec fn status_text(s: StatusView) -> Seq<char> {
    "{\"version\":\""@ + json::escaped(text::trimmed(s.version_name)) + "\",\"full_version\":\""@
        + json::escaped(text::trimmed(s.full_version)) + "\",\"kernel_version_code\":"@
        + number::signed_decimal(s.kernel_version_code) + ",\"kernel_features\":"@
        + number::decimal(s.kernel_features) + ",\"uapi_version\":"@ + number::decimal(
        s.uapi_version,
    ) + ",\"port\":"@ + number::decimal(s.port) + ",\"features\":["@ + text::joined(
        feature_list(s.readings, 6),
        ',',
    ) + "]}"@
}

/// Appends the text, trimmed, as it stands in a JSON string.
fn push_trimmed(out: &mut String, s: &str)
    ensures
        final(out)@ == old(out)@ + json::escaped(text::trimmed(s@)),
{
    let chars = text::chars_of(s);
    json::push_escaped(out, text::trim(chars.as_slice()));
}

/// Appends the JSON object of a feature.
fn push_feature(out: &mut String, f: FeatureId, r: Reading)
    ensures
        final(out)@ == old(out)@ + feature_json(f, r),
{
    let (value, supported) = match r.state {
        Some((value, supported)) => (value, supported),
        None => (0u64, false),
    };
    out.append("{\"id\":");
    number::push_decimal(out, r.id as u64);
    out.append(",\"name\":\"");
    out.append(f.name());
    out.append("\",\"value\":");
    number::push_decimal(out, value);
    out.append(",\"supported\":");
    if supported {
        out.append("true");
    } else {
        out.append("false");
    }
    out.append("}");
    assert(out@ == old(out)@ + feature_json(f, r));
}

/// The JSON object of the status: the versions, and the features in the order
/// of [`ALL_FEATURES`].
pub fn status_json(s: &Status) -> (r: String)
    ensures
        r@ == status_text(s@),
{
    let mut out = String::new();
    out.append("{\"version\":\"");
    push_trimmed(&mut out, s.version_name.as_str());
    out.append("\",\"full_version\":\"");
    push_trimmed(&mut out, s.full_version.as_str());
    out.append("\",\"kernel_version_code\":");
    number::push_signed_decimal(&mut out, s.kernel_version_code);
    out.append(",\"kernel_features\":");
    number::push_decimal(&mut out, s.kernel_features);
    out.append(",\"uapi_version\":");
    number::push_decimal(&mut out, s.uapi_version);
    out.append(",\"port\":");
    number::push_decimal(&mut out, s.port as u64);
    out.append(",\"features\":[");
    let ghost before = out@;
    assert(feature_list(s@.readings, 0) == Seq::<Seq<char>>::empty());
    for i in 0..6usize
        invariant
            out@ == before + text::joined(feature_list(s@.readings, i as nat), ','),
    {
        proof {
            let list = feature_list(s@.readings, i as nat);
            let more = feature_json(ALL_FEATURES@[i as int], s@.readings[i as int]);
            assert(feature_list(s@.readings, (i + 1) as nat) == list.push(more));
            if i > 0 {
                text::lemma_joined_push(list, ',', more);
            } else {
                assert(text::joined(list, ',') == Seq::<char>::empty());
                assert(list.push(more)[0] == more);
                assert(text::joined(list.push(more), ',') == more);
            }
        }
        if i > 0 {
            out.push(',');
        }
        push_feature(&mut out, ALL_FEATURES[i], s.readings[i]);
    }
    out.append("]}");
    assert(out@ == status_text(s@));
    out
}

/// The members of the JSON object of a feature.
pub open spec fn feature_members(f: FeatureId, r: Reading) -> Seq<Seq<char>> {
    seq![
        json::member("id"@, number::decimal(r.id as nat)),
        json::member("name"@, json::string(f.spec_name())),
        json::member("value"@, number::decimal(shown_value(r) as nat)),
        json::member("supported"@, json::boolean(shown_supported(r))),
    ]
}

/// The members of the JSON object of the status.
pub open spec fn status_members(s: StatusView) -> Seq<Seq<char>> {
    seq![
        json::member("version"@, json::string(text::trimmed(s.version_name))),
        json::member("full_version"@, json::string(text::trimmed(s.full_version))),
        json::member("kernel_version_code"@, number::signed_decimal(s.kernel_version_code)),
        json::member("kernel_features"@, number::decimal(s.kernel_features)),
        json::member("uapi_version"@, number::decimal(s.uapi_version)),
        json::member("port"@, number::decimal(s.port)),
        json::member("features"@, json::array(feature_list(s.readings, 6))),
    ]
}

/// The text of a feature is the JSON object of its members.
pub proof fn law_feature_is_object(f: FeatureId, r: Reading)
    ensures
        feature_json(f, r) == json::object(feature_members(f, r)),
{
    let q = seq!['"'];
    let name = f.spec_name();
    assert(json::is_key(name)) by {
        reveal_strlit("su_compat");
        reveal_strlit("kernel_umount");
        reveal_strlit("sulog");
        reveal_strlit("adb_root");
        reveal_strlit("selinux_hide");
        reveal_strlit("stealth");
    }
    json::lemma_escaped_plain(name);
    assert(json::is_key("id"@)) by {
        reveal_strlit("id");
    }
    assert(json::is_key("name"@)) by {
        reveal_strlit("name");
    }
    assert(json::is_key("value"@)) by {
        reveal_strlit("value");
    }
    assert(json::is_key("supported"@)) by {
        reveal_strlit("supported");
    }
    assert("{\"id\":"@ == seq!['{'] + json::label("id"@)) by {
        reveal_strlit("{\"id\":");
        reveal_strlit("id");
    }
    assert(",\"name\":\""@ == seq![','] + json::label("name"@) + q) by {
        reveal_strlit(",\"name\":\"");
        reveal_strlit("name");
    }
    assert("\",\"value\":"@ == q + (seq![','] + json::label("value"@))) by {
        reveal_strlit("\",\"value\":");
        reveal_strlit("value");
    }
    assert(",\"supported\":"@ == seq![','] + json::label("supported"@)) by {
        reveal_strlit(",\"supported\":");
        reveal_strlit("supported");
    }
    assert("}"@ == seq!['}']) by {
        reveal_strlit("}");
    }
    let m = feature_members(f, r);
    let a = number::decimal(r.id as nat);
    let b = json::string(name);
    let c = number::decimal(shown_value(r) as nat);
    let d = json::boolean(shown_supported(r));
    assert(m.take(1) == seq![m[0]]);
    assert(m.take(2) == m.take(1).push(m[1]));
    assert(m.take(3) == m.take(2).push(m[2]));
    assert(m == m.take(3).push(m[3]));
    let t1 = "{\"id\":"@ + a;
    json::lemma_object_begins("id"@, a);
    let t2 = t1 + (seq![','] + json::label("name"@)) + b;
    json::lemma_object_goes_on(t1, m.take(1), "name"@, b);
    let t3 = t2 + (seq![','] + json::label("value"@)) + c;
    json::lemma_object_goes_on(t2, m.take(2), "value"@, c);
    let t4 = t3 + ",\"supported\":"@ + d;
    json::lemma_object_goes_on(t3, m.take(3), "supported"@, d);
    assert(t1 + ",\"name\":\""@ + name + "\",\"value\":"@ + c == t3);
}

/// The text of the status is the JSON object of its seven members.
pub proof fn law_status_is_object(s: StatusView)
    ensures
        status_members(s).len() == 7,
        status_text(s) == json::object(status_members(s)),
{
    let q = seq!['"'];
    assert(json::is_key("version"@)) by {
        reveal_strlit("version");
    }
    assert(json::is_key("full_version"@)) by {
        reveal_strlit("full_version");
    }
    assert(json::is_key("kernel_version_code"@)) by {
        reveal_strlit("kernel_version_code");
    }
    assert(json::is_key("kernel_features"@)) by {
        reveal_strlit("kernel_features");
    }
    assert(json::is_key("uapi_version"@)) by {
        reveal_strlit("uapi_version");
    }
    assert(json::is_key("port"@)) by {
        reveal_strlit("port");
    }
    assert(json::is_key("features"@)) by {
        reveal_strlit("features");
    }
    assert("{\"version\":\""@ == seq!['{'] + json::label("version"@) + q) by {
        reveal_strlit("{\"version\":\"");
        reveal_strlit("version");
    }
    assert("\",\"full_version\":\""@ == q + (seq![','] + json::label("full_version"@)) + q) by {
        reveal_strlit("\",\"full_version\":\"");
        reveal_strlit("full_version");
    }
    assert("\",\"kernel_version_code\":"@ == q + (seq![','] + json::label("kernel_version_code"@))) by {
        reveal_strlit("\",\"kernel_version_code\":");
        reveal_strlit("kernel_version_code");
    }
    assert(",\"kernel_features\":"@ == seq![','] + json::label("kernel_features"@)) by {
        reveal_strlit(",\"kernel_features\":");
        reveal_strlit("kernel_features");
    }
    assert(",\"uapi_version\":"@ == seq![','] + json::label("uapi_version"@)) by {
        reveal_strlit(",\"uapi_version\":");
        reveal_strlit("uapi_version");
    }
    assert(",\"port\":"@ == seq![','] + json::label("port"@)) by {
        reveal_strlit(",\"port\":");
        reveal_strlit("port");
    }
    assert(",\"features\":["@ == (seq![','] + json::label("features"@)) + seq!['[']) by {
        reveal_strlit(",\"features\":[");
        reveal_strlit("features");
    }
    assert("]}"@ == seq![']'] + seq!['}']) by {
        reveal_strlit("]}");
    }
    let m = status_members(s);
    let v = text::trimmed(s.version_name);
    let w = text::trimmed(s.full_version);
    let a = json::escaped(v);
    let b = json::escaped(w);
    let c = number::signed_decimal(s.kernel_version_code);
    let d = number::decimal(s.kernel_features);
    let e = number::decimal(s.uapi_version);
    let f = number::decimal(s.port);
    let list = feature_list(s.readings, 6);
    let g = text::joined(list, ',');
    assert(m.take(1) == seq![m[0]]);
    assert(m.take(2) == m.take(1).push(m[1]));
    assert(m.take(3) == m.take(2).push(m[2]));
    assert(m.take(4) == m.take(3).push(m[3]));
    assert(m.take(5) == m.take(4).push(m[4]));
    assert(m.take(6) == m.take(5).push(m[5]));
    assert(m == m.take(6).push(m[6]));
    let t1 = seq!['{'] + json::label("version"@) + json::string(v);
    json::lemma_object_begins("version"@, json::string(v));
    let t2 = t1 + (seq![','] + json::label("full_version"@)) + json::string(w);
    json::lemma_object_goes_on(t1, m.take(1), "full_version"@, json::string(w));
    let t3 = t2 + (seq![','] + json::label("kernel_version_code"@)) + c;
    json::lemma_object_goes_on(t2, m.take(2), "kernel_version_code"@, c);
    let t4 = t3 + ",\"kernel_features\":"@ + d;
    json::lemma_object_goes_on(t3, m.take(3), "kernel_features"@, d);
    let t5 = t4 + ",\"uapi_version\":"@ + e;
    json::lemma_object_goes_on(t4, m.take(4), "uapi_version"@, e);
    let t6 = t5 + ",\"port\":"@ + f;
    json::lemma_object_goes_on(t5, m.take(5), "port"@, f);
    let t7 = t6 + (seq![','] + json::label("features"@)) + json::array(list);
    json::lemma_object_goes_on(t6, m.take(6), "features"@, json::array(list));
    let u1 = "{\"version\":\""@ + a;
    assert(u1 + q == t1);
    let u2 = u1 + "\",\"full_version\":\""@ + b;
    assert(u2 + q == t2) by {
        assert(u2 + q == (u1 + q) + (seq![','] + json::label("full_version"@)) + (q + b + q));
    }
    let u3 = u2 + "\",\"kernel_version_code\":"@ + c;
    assert(u3 == t3) by {
        assert(u3 == (u2 + q) + (seq![','] + json::label("kernel_version_code"@)) + c);
    }
    assert(t6 + ",\"features\":["@ + g + "]}"@ == t7 + seq!['}']) by {
        let x = seq![','] + json::label("features"@);
        assert(t6 + (x + seq!['[']) + g + (seq![']'] + seq!['}']) == t6 + x + (seq!['['] + g
            + seq![']']) + seq!['}']);
    }
}

/// A feature is shown with its own number and name, and with the value and the
/// support that the kernel answered; where the kernel did not answer, with zero
/// and as not supported.
pub proof fn law_feature_shows(f: FeatureId, r: Reading)
    ensures
        feature_json(f, r) == json::object(
            seq![
                json::member("id"@, number::decimal(r.id as nat)),
                json::member("name"@, json::string(f.spec_name())),
                json::member(
                    "value"@,
                    match r.state {
                        Some((value, _)) => number::decimal(value as nat),
                        None => "0"@,
                    },
                ),
                json::member(
                    "supported"@,
                    match r.state {
                        Some((_, supported)) => json::boolean(supported),
                        None => "false"@,
                    },
                ),
            ],
        ),
{
    law_feature_is_object(f, r);
    reveal_strlit("0");
    assert(number::decimal(0) == "0"@);
    assert(feature_members(f, r) == seq![
        json::member("id"@, number::decimal(r.id as nat)),
        json::member("name"@, json::string(f.spec_name())),
        json::member(
            "value"@,
            match r.state {
                Some((value, _)) => number::decimal(value as nat),
                None => "0"@,
            },
        ),
        json::member(
            "supported"@,
            match r.state {
                Some((_, supported)) => json::boolean(supported),
                None => "false"@,
            },
        ),
    ]);
}

/// Two answers of the kernel that differ in the value or in the support are shown
/// differently.
pub proof fn law_feature_shows_difference(f: FeatureId, a: Reading, b: Reading)
    requires
        a.id == b.id,
        a.state is Some,
        b.state is Some,
        feature_json(f, a) == feature_json(f, b),
    ensures
        a.state == b.state,
{
    let x = a.state->0;
    let y = b.state->0;
    let before = "{\"id\":"@ + number::decimal(a.id as nat) + ",\"name\":\""@ + f.spec_name()
        + "\",\"value\":"@;
    let v = number::decimal(x.0 as nat);
    let w = number::decimal(y.0 as nat);
    let s = ",\"supported\":"@ + json::boolean(x.1) + "}"@;
    let t = ",\"supported\":"@ + json::boolean(y.1) + "}"@;
    assert(feature_json(f, a) == before + (v + s));
    assert(feature_json(f, b) == before + (w + t));
    assert((before + (v + s)).skip(before.len() as int) == v + s);
    assert((before + (w + t)).skip(before.len() as int) == w + t);
    number::lemma_decimal(x.0 as nat);
    number::lemma_decimal(y.0 as nat);
    reveal_strlit(",\"supported\":");
    reveal_strlit("true");
    reveal_strlit("false");
    reveal_strlit("}");
    assert(s[0] == ',' && t[0] == ',');
    if v.len() < w.len() {
        assert((v + s)[v.len() as int] == ',');
        assert((w + t)[v.len() as int] == w[v.len() as int]);
        assert(number::is_digit(w[v.len() as int]));
    } else if w.len() < v.len() {
        assert((w + t)[w.len() as int] == ',');
        assert((v + s)[w.len() as int] == v[w.len() as int]);
        assert(number::is_digit(v[w.len() as int]));
    }
    assert((v + s).take(v.len() as int) == v);
    assert((w + t).take(w.len() as int) == w);
    assert(v == w);
    assert((v + s).len() == (w + t).len());
    assert(s.len() == t.len());
}

/// The status shows what it was given: the trimmed versions, the numbers of the
/// kernel, the port, and of each reading the feature that it belongs to, in the
/// order of the panel.
pub proof fn law_status_shows(s: StatusView)
    ensures
        status_text(s) == json::object(
            seq![
                json::member("version"@, json::string(text::trimmed(s.version_name))),
                json::member("full_version"@, json::string(text::trimmed(s.full_version))),
                json::member("kernel_version_code"@, number::signed_decimal(s.kernel_version_code)),
                json::member("kernel_features"@, number::decimal(s.kernel_features)),
                json::member("uapi_version"@, number::decimal(s.uapi_version)),
                json::member("port"@, number::decimal(s.port)),
                json::member(
                    "features"@,
                    json::array(
                        seq![
                            feature_json(FeatureId::SuCompat, s.readings[0]),
                            feature_json(FeatureId::KernelUmount, s.readings[1]),
                            feature_json(FeatureId::Sulog, s.readings[2]),
                            feature_json(FeatureId::AdbRoot, s.readings[3]),
                            feature_json(FeatureId::SelinuxHide, s.readings[4]),
                            feature_json(FeatureId::Stealth, s.readings[5]),
                        ],
                    ),
                ),
            ],
        ),
{
    law_status_is_object(s);
    assert(feature_list(s.readings, 6) == seq![
        feature_json(FeatureId::SuCompat, s.readings[0]),
        feature_json(FeatureId::KernelUmount, s.readings[1]),
        feature_json(FeatureId::Sulog, s.readings[2]),
        feature_json(FeatureId::AdbRoot, s.readings[3]),
        feature_json(FeatureId::SelinuxHide, s.readings[4]),
        feature_json(FeatureId::Stealth, s.readings[5]),
    ]);
}

/// The model of a status holds its parts.
pub proof fn law_status_model(s: Status)
    ensures
        s@.version_name == s.version_name@,
        s@.full_version == s.full_version@,
        s@.kernel_version_code == s.kernel_version_code,
        s@.kernel_features == s.kernel_features,
        s@.uapi_version == s.uapi_version,
        s@.port == s.port,
        s@.readings == s.readings@,
{
}

} // verus!
