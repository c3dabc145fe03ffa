//! The discovery message that tells the hub about an entity, and its JSON text.

use vstd::prelude::*;

use crate::ha_entity::{copy_text, text_of, Device, DeviceClass};
use crate::json::{json_array, json_object, json_quoted, json_string, texts, write_array, write_object, member_texts};

verus! {

/// The device block of a discovery message.
#[derive(Debug, Clone)]
pub struct DevicePayload {
    pub name: String,
    pub identifiers: Vec<String>,
}

/// Where the discovery message comes from.
#[derive(Debug, Clone)]
pub struct OriginPayload {
    pub name: String,
    pub sw_version: String,
    pub support_url: String,
}

/// The discovery message of one entity. Absent fields are left out of the
/// JSON text, but for `name`, which is written as `null`.
#[derive(Debug, Clone)]
pub struct ConfigPayload {
    pub name: Option<String>,
    pub object_id: Option<String>,
    pub state_topic: Option<String>,
    pub command_topic: Option<String>,
    pub device_class: Option<String>,
    pub value_template: Option<String>,
    pub unique_id: Option<String>,
    pub device: Option<DevicePayload>,
    pub origin: Option<OriginPayload>,
}

pub struct DevicePayloadView {
    pub name: Seq<char>,
    pub identifiers: Seq<Seq<char>>,
}

pub struct OriginPayloadView {
    pub name: Seq<char>,
    pub sw_version: Seq<char>,
    pub support_url: Seq<char>,
}

pub struct ConfigPayloadView {
    pub name: Option<Seq<char>>,
    pub object_id: Option<Seq<char>>,
    pub state_topic: Option<Seq<char>>,
    pub command_topic: Option<Seq<char>>,
    pub device_class: Option<Seq<char>>,
    pub value_template: Option<Seq<char>>,
    pub unique_id: Option<Seq<char>>,
    pub device: Option<DevicePayloadView>,
    pub origin: Option<OriginPayloadView>,
}

impl View for DevicePayload {
    type V = DevicePayloadView;

    open spec fn view(&self) -> DevicePayloadView {
        DevicePayloadView { name: self.name@, identifiers: texts(self.identifiers@) }
    }
}

impl View for OriginPayload {
    type V = OriginPayloadView;

    open spec fn view(&self) -> OriginPayloadView {
        OriginPayloadView {
            name: self.name@,
            sw_version: self.sw_version@,
            support_url: self.support_url@,
        }
    }
}

impl View for ConfigPayload {
    type V = ConfigPayloadView;

    open spec fn view(&self) -> ConfigPayloadView {
        ConfigPayloadView {
            name: text_of(self.name),
            object_id: text_of(self.object_id),
            state_topic: text_of(self.state_topic),
            command_topic: text_of(self.command_topic),
            device_class: text_of(self.device_class),
            value_template: text_of(self.value_template),
            unique_id: text_of(self.unique_id),
            device: match self.device {
                Some(d) => Some(d@),
                None => None,
            },
            origin: match self.origin {
                Some(o) => Some(o@),
                None => None,
            },
        }
    }
}

/// The display name of a device: its name where it has one, else its unique id.
pub open spec fn device_display_name(d: Device) -> Seq<char> {
    match d.name {
        Some(n) => n@,
        None => d.unique_id@,
    }
}

pub open spec fn device_payload(d: Device) -> DevicePayloadView {
    DevicePayloadView { name: device_display_name(d), identifiers: seq![d.unique_id@] }
}

pub open spec fn origin_payload() -> OriginPayloadView {
    OriginPayloadView {
        name: "ha-cec-proxy"@,
        sw_version: "0.1.0"@,
        support_url: "https://github.com/o080o/ha-cec-proxy"@,
    }
}

/// The device class as the hub spells it; `none` is left out.
pub open spec fn device_class_field(c: DeviceClass) -> Option<Seq<char>> {
    match c {
        DeviceClass::Unspecified => None,
        _ => Some(c.spec_name()),
    }
}

pub open spec fn config_payload(
    state_topic: Option<Seq<char>>,
    command_topic: Option<Seq<char>>,
    device: Device,
    device_class: DeviceClass,
    id: Seq<char>,
) -> ConfigPayloadView {
    ConfigPayloadView {
        name: Some(id),
        object_id: None,
        state_topic,
        command_topic,
        device_class: device_class_field(device_class),
        value_template: None,
        unique_id: Some(device.unique_id@ + "_"@ + id),
        device: Some(device_payload(device)),
        origin: Some(origin_payload()),
    }
}

impl DevicePayload {
    pub fn from_device(config: &Device) -> (r: DevicePayload)
        ensures
            r@ == device_payload(*config),
    {
        let name = match &config.name {
            Some(n) => n.clone(),
            None => config.unique_id.clone(),
        };
        let mut identifiers: Vec<String> = Vec::new();
        identifiers.push(config.unique_id.clone());
        assert(texts(identifiers@) =~= seq![config.unique_id@]);
        DevicePayload { name, identifiers }
    }
}

impl Default for OriginPayload {
    fn default() -> (r: OriginPayload)
        ensures
            r@ == origin_payload(),
    {
        OriginPayload {
            name: String::from_str("ha-cec-proxy"),
            sw_version: String::from_str("0.1.0"),
            support_url: String::from_str("https://github.com/o080o/ha-cec-proxy"),
        }
    }
}

/// A JSON value written from optional text: the string literal, or `null`.
pub open spec fn json_text_or_null(o: Option<Seq<char>>) -> Seq<char> {
    match o {
        Some(s) => json_quoted(s),
        None => "null"@,
    }
}

/// The member `key` for an optional field: none where the field is absent.
pub open spec fn optional_member(key: Seq<char>, o: Option<Seq<char>>) -> Seq<(Seq<char>, Seq<char>)> {
    match o {
        Some(s) => seq![(key, json_quoted(s))],
        None => Seq::empty(),
    }
}

pub open spec fn device_json(d: DevicePayloadView) -> Seq<char> {
    json_object(
        seq![
            ("name"@, json_quoted(d.name)),
            ("identifiers"@, json_array(d.identifiers.map_values(|s: Seq<char>| json_quoted(s)))),
        ],
    )
}

pub open spec fn origin_json(o: OriginPayloadView) -> Seq<char> {
    json_object(
        seq![
            ("name"@, json_quoted(o.name)),
            ("sw_version"@, json_quoted(o.sw_version)),
            ("support_url"@, json_quoted(o.support_url)),
        ],
    )
}

/// The members of a discovery message, in the order of its fields.
pub open spec fn config_members(p: ConfigPayloadView) -> Seq<(Seq<char>, Seq<char>)> {
    seq![("name"@, json_text_or_null(p.name))] + optional_member("object_id"@, p.object_id)
        + optional_member("state_topic"@, p.state_topic) + optional_member(
        "command_topic"@,
        p.command_topic,
    ) + optional_member("device_class"@, p.device_class) + optional_member(
        "value_template"@,
        p.value_template,
    ) + optional_member("unique_id"@, p.unique_id) + device_member(p.device) + origin_member(
        p.origin,
    )
}

pub open spec fn device_member(d: Option<DevicePayloadView>) -> Seq<(Seq<char>, Seq<char>)> {
    match d {
        Some(d) => seq![("device"@, device_json(d))],
        None => Seq::empty(),
    }
}

pub open spec fn origin_member(o: Option<OriginPayloadView>) -> Seq<(Seq<char>, Seq<char>)> {
    match o {
        Some(o) => seq![("origin"@, origin_json(o))],
        None => Seq::empty(),
    }
}

/// The compact JSON text of a discovery message.
pub open spec fn config_json(p: ConfigPayloadView) -> Seq<char> {
    json_object(config_members(p))
}

fn push_member(members: &mut Vec<(String, String)>, key: &str, value: String)
    ensures
        member_texts(final(members)@) == member_texts(old(members)@).push((key@, value@)),
{
    members.push((String::from_str(key), value));
    assert(member_texts(members@) =~= member_texts(old(members)@).push((key@, value@)));
}

fn push_optional(members: &mut Vec<(String, String)>, key: &str, value: &Option<String>)
    ensures
        member_texts(final(members)@) == member_texts(old(members)@) + optional_member(
            key@,
            text_of(*value),
        ),
{
    match value {
        Some(v) => {
            push_member(members, key, json_string(v.as_str()));
            assert(member_texts(members@) =~= member_texts(old(members)@) + optional_member(
                key@,
                text_of(*value),
            ));
        },
        None => {
            assert(member_texts(members@) =~= member_texts(old(members)@) + optional_member(
                key@,
                text_of(*value),
            ));
        },
    }
}

impl DevicePayload {
    pub fn to_json(&self) -> (r: String)
        ensures
            r@ == device_json(self@),
    {
        let mut ids: Vec<String> = Vec::new();
        let mut i: usize = 0;
        while i < self.identifiers.len()
            invariant
                i <= self.identifiers.len(),
                texts(ids@) == texts(self.identifiers@.take(i as int)).map_values(
                    |s: Seq<char>| json_quoted(s),
                ),
            decreases self.identifiers.len() - i,
        {
            let q = json_string(self.identifiers[i].as_str());
            let ghost prev = texts(ids@);
            ids.push(q);
            assert(texts(ids@) =~= prev.push(q@));
            assert(texts(self.identifiers@.take(i as int + 1)) =~= texts(self.identifiers@.take(i as int)).push(
                self.identifiers@[i as int]@,
            ));
            assert(texts(ids@) =~= texts(self.identifiers@.take(i as int + 1)).map_values(
                |s: Seq<char>| json_quoted(s),
            ));
            i = i + 1;
        }
        assert(self.identifiers@.take(self.identifiers.len() as int) =~= self.identifiers@);
        let mut members: Vec<(String, String)> = Vec::new();
        push_member(&mut members, "name", json_string(self.name.as_str()));
        push_member(&mut members, "identifiers", write_array(&ids));
        assert(member_texts(members@) =~= seq![
            ("name"@, json_quoted(self@.name)),
            ("identifiers"@, json_array(self@.identifiers.map_values(|s: Seq<char>| json_quoted(s)))),
        ]);
        write_object(&members)
    }
}

impl OriginPayload {
    pub fn to_json(&self) -> (r: String)
        ensures
            r@ == origin_json(self@),
    {
        let mut members: Vec<(String, String)> = Vec::new();
        push_member(&mut members, "name", json_string(self.name.as_str()));
        push_member(&mut members, "sw_version", json_string(self.sw_version.as_str()));
        push_member(&mut members, "support_url", json_string(self.support_url.as_str()));
        assert(member_texts(members@) =~= seq![
            ("name"@, json_quoted(self@.name)),
            ("sw_version"@, json_quoted(self@.sw_version)),
            ("support_url"@, json_quoted(self@.support_url)),
        ]);
        write_object(&members)
    }
}

impl ConfigPayload {
    pub fn new(
        state_topic: Option<String>,
        command_topic: Option<String>,
        device: &Device,
        device_class: &DeviceClass,
        id: &str,
    ) -> (r: ConfigPayload)
        ensures
            r@ == config_payload(
                text_of(state_topic),
                text_of(command_topic),
                *device,
                *device_class,
                id@,
            ),
    {
        let device_class = match device_class {
            DeviceClass::Unspecified => None,
            _ => Some(device_class.to_string()),
        };
        let mut unique_id = device.unique_id.clone();
        unique_id.append("_");
        unique_id.append(id);
        ConfigPayload {
            name: Some(String::from_str(id)),
            state_topic,
            command_topic,
            device_class,
            unique_id: Some(unique_id),
            origin: Some(OriginPayload::default()),
            device: Some(DevicePayload::from_device(device)),
            object_id: None,
            value_template: None,
        }
    }

    /// The compact JSON text of this message.
    pub fn to_json(&self) -> (r: String)
        ensures
            r@ == config_json(self@),
    {
        let mut members: Vec<(String, String)> = Vec::new();
        let name = match &self.name {
            Some(n) => json_string(n.as_str()),
            None => String::from_str("null"),
        };
        push_member(&mut members, "name", name);
        assert(member_texts(members@) =~= seq![("name"@, json_text_or_null(self@.name))]);
        push_optional(&mut members, "object_id", &self.object_id);
        push_optional(&mut members, "state_topic", &self.state_topic);
        push_optional(&mut members, "command_topic", &self.command_topic);
        push_optional(&mut members, "device_class", &self.device_class);
        push_optional(&mut members, "value_template", &self.value_template);
        push_optional(&mut members, "unique_id", &self.unique_id);
        let ghost before_device = member_texts(members@);
        match &self.device {
            Some(d) => push_member(&mut members, "device", d.to_json()),
            None => {},
        }
        assert(member_texts(members@) =~= before_device + device_member(self@.device));
        let ghost before_origin = member_texts(members@);
        match &self.origin {
            Some(o) => push_member(&mut members, "origin", o.to_json()),
            None => {},
        }
        assert(member_texts(members@) =~= before_origin + origin_member(self@.origin));
        write_object(&members)
    }
}

} // verus!
