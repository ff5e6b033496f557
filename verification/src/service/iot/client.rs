//! The messages for devices.
use vstd::prelude::*;

use crate::lan_api::DeviceColor;
use crate::random_id;
use crate::random_id::new_simple_uuid;
use crate::text;
use crate::text::{append_decimal, append_str, str_eq};
use crate::undoc_api::{DeviceEntry, NoTopic, ParsedOneClick};

verus! {

/// What a message carries besides its command.
#[derive(Debug, PartialEq, Eq)]
pub enum IotData {
    Nothing,
    Value(u8),
    Color { color: DeviceColor, kelvin: u32 },
    /// Frames, as base64 texts.
    Command(Vec<String>),
}

/// A message for the topic of a device.
#[derive(Debug, PartialEq, Eq)]
pub struct IotMessage {
    pub topic: String,
    pub cmd: &'static str,
    pub cmd_version: u8,
    pub data: IotData,
    pub transaction: String,
    pub kind: u8,
}

/// A text to publish under a topic.
#[derive(Debug, PartialEq, Eq)]
pub struct Publication {
    pub topic: String,
    pub payload: String,
}

/// The transaction of a message that is sent `ms` milliseconds after the start of
/// 1970.
pub open spec fn transaction_text(ms: u64) -> Seq<char> {
    "v_"@ + text::decimal(ms as nat) + "000"@
}

/// Whether a message goes to the device's topic, with its transaction.
pub open spec fn is_for(message: IotMessage, device: DeviceEntry, ms: u64) -> bool {
    &&& device.device_ext.device_settings.topic matches Some(topic) && message.topic@ == topic@
    &&& message.transaction@ == transaction_text(ms)
}

/// A message goes to the topic of its device and to no other, and no message goes to a
/// device that has none.
pub proof fn a_message_goes_to_its_device(message: IotMessage, device: DeviceEntry, ms: u64)
    requires
        is_for(message, device, ms),
    ensures
        device.device_ext.device_settings.topic matches Some(topic) && topic@ == message.topic@,
        message.transaction@ == "v_"@ + text::decimal(ms as nat) + "000"@,
{
}

/// The number that stands for a power state. Two kinds of plug have their own.
pub open spec fn power_value(sku: Seq<char>, on: bool) -> u8 {
    if sku == "H5080"@ || sku == "H5083"@ {
        if on {
            17
        } else {
            16
        }
    } else if on {
        1
    } else {
        0
    }
}

/// What a device is asked for.
pub enum Wish {
    Status,
    Power(bool),
    Brightness(u8),
    Color(u8, u8, u8),
    ColorTemperature(u32),
    Frames(Seq<String>),
    /// Nothing that a device understands.
    Unknown,
}

/// What a device of a model understands of a message.
pub open spec fn understood(sku: Seq<char>, message: IotMessage) -> Wish {
    let plug = sku == "H5080"@ || sku == "H5083"@;
    match message.data {
        IotData::Nothing => if message.cmd@ == "status"@ {
            Wish::Status
        } else {
            Wish::Unknown
        },
        IotData::Value(value) => if message.cmd@ == "brightness"@ {
            Wish::Brightness(value)
        } else if message.cmd@ == "turn"@ && ((plug && value == 17) || (!plug && value == 1)) {
            Wish::Power(true)
        } else if message.cmd@ == "turn"@ && ((plug && value == 16) || (!plug && value == 0)) {
            Wish::Power(false)
        } else {
            Wish::Unknown
        },
        IotData::Color { color, kelvin } => if message.cmd@ != "colorwc"@ {
            Wish::Unknown
        } else if kelvin == 0 {
            Wish::Color(color.r, color.g, color.b)
        } else {
            Wish::ColorTemperature(kelvin)
        },
        IotData::Command(frames) => if message.cmd@ == "ptReal"@ {
            Wish::Frames(frames@)
        } else {
            Wish::Unknown
        },
    }
}

/// On and off are told apart by every model: a plug by seventeen and sixteen, and any
/// other by one and zero.
pub proof fn on_is_not_off(sku: Seq<char>, on: bool)
    ensures
        power_value(sku, true) == power_value(sku, false) + 1,
        sku != "H5080"@ && sku != "H5083"@ ==> power_value(sku, on) == (if on {
            1u8
        } else {
            0u8
        }),
        sku == "H5080"@ || sku == "H5083"@ ==> power_value(sku, on) == (if on {
            17u8
        } else {
            16u8
        }),
{
}

/// A message that is understood as one thing is not understood as another, and one
/// that gives a colour gives no temperature.
pub proof fn what_is_understood(sku: Seq<char>, message: IotMessage)
    ensures
        understood(sku, message) is Color ==> (message.data matches IotData::Color {
            color,
            kelvin,
        } && kelvin == 0 && understood(sku, message) == Wish::Color(color.r, color.g, color.b)),
        understood(sku, message) matches Wish::ColorTemperature(asked) ==> (
        message.data matches IotData::Color { color, kelvin } && kelvin == asked && asked > 0),
        understood(sku, message) matches Wish::Brightness(asked) ==> message.data
            == IotData::Value(asked) && message.cmd@ == "brightness"@,
        understood(sku, message) matches Wish::Power(on) ==> message.data == IotData::Value(
            power_value(sku, on),
        ) && message.cmd@ == "turn"@,
        understood(sku, message) matches Wish::Frames(frames) ==> (
        message.data matches IotData::Command(sent) && sent@ == frames),
{
}

/// A transaction is the time in milliseconds, so that a later message has another.
pub proof fn a_transaction_tells_the_time(ms: u64)
    ensures
        transaction_text(ms) == "v_"@ + text::decimal(ms as nat) + "000"@,
        transaction_text(ms).len() > 5,
{
    reveal_strlit("v_");
    reveal_strlit("000");
    a_number_has_a_digit(ms as nat);
}

proof fn a_number_has_a_digit(n: nat)
    ensures
        text::decimal(n).len() > 0,
    decreases n,
{
    if n >= 10 {
        a_number_has_a_digit(n / 10);
    }
}

/// Every message of a shortcut is published under the topic of its entry, in the
/// order of the entries and of their messages.
pub proof fn every_message_of_a_shortcut_is_sent(item: ParsedOneClick, n: nat, k: int)
    requires
        n < item.entries@.len(),
        0 <= k < item.entries@[n as int].msgs@.len(),
    ensures
        ({
            let sent = one_click_texts(item, n + 1);
            let before = one_click_texts(item, n).len();
            &&& sent.len() == before + item.entries@[n as int].msgs@.len()
            &&& sent[before + k].0 == item.entries@[n as int].topic@
            &&& sent[before + k].1 == item.entries@[n as int].msgs@[k]@
            &&& sent.take(before as int) == one_click_texts(item, n)
        }),
        one_click_texts(item, 0).len() == 0,
{
    let before = one_click_texts(item, n);
    let sent = one_click_texts(item, n + 1);
    assert(sent.take(before.len() as int) =~= before);
}

/// A connection is known by its account and by an id of its own.
pub proof fn a_connection_is_known_by_its_account(account: Seq<char>, id: Seq<char>)
    ensures
        client_id_text(account, id) == "AP/"@ + account + "/"@ + id,
{
}

/// The publications of the first `n` entries of a shortcut.
pub open spec fn one_click_texts(item: ParsedOneClick, n: nat) -> Seq<(Seq<char>, Seq<char>)>
    decreases n,
{
    if n == 0 {
        Seq::<(Seq<char>, Seq<char>)>::empty()
    } else {
        let entry = item.entries@[n - 1];
        one_click_texts(item, (n - 1) as nat) + Seq::new(
            entry.msgs@.len(),
            |i: int| (entry.topic@, entry.msgs@[i]@),
        )
    }
}

pub open spec fn publication_texts(list: Seq<Publication>) -> Seq<(Seq<char>, Seq<char>)> {
    list.map_values(|p: Publication| (p.topic@, p.payload@))
}

/// The id of our connection to the broker.
pub open spec fn client_id_text(account_id: Seq<char>, id: Seq<char>) -> Seq<char> {
    "AP/"@ + account_id + "/"@ + id
}

/// The id of a connection of an account.
pub fn client_id(account_id: &str, id: &str) -> (r: String)
    ensures
        r@ == client_id_text(account_id@, id@),
{
    let mut out = "AP/".to_owned();
    append_str(&mut out, account_id);
    append_str(&mut out, "/");
    append_str(&mut out, id);
    out
}

/// The id of a new connection of an account.
pub fn new_client_id(account_id: &str) -> (r: String)
    ensures
        exists|id: Seq<char>| #[trigger]
            random_id::is_simple_uuid(id) && r@ == client_id_text(account_id@, id),
{
    let id = new_simple_uuid();
    client_id(account_id, id.as_str())
}

fn transaction(ms: u64) -> (r: String)
    ensures
        r@ == transaction_text(ms),
{
    let mut out = "v_".to_owned();
    append_decimal(&mut out, ms);
    append_str(&mut out, "000");
    out
}

/// Makes the messages for devices.
#[derive(Clone, Copy, Debug)]
pub struct IotClient;

impl IotClient {
    pub fn is_device_compatible(&self, device: &DeviceEntry) -> (r: bool)
        ensures
            r == (device.device_ext.device_settings.topic is Some),
    {
        device.device_ext.device_settings.topic.is_some()
    }

    fn message(
        &self,
        device: &DeviceEntry,
        cmd: &'static str,
        cmd_version: u8,
        data: IotData,
        kind: u8,
        ms: u64,
    ) -> (r: Result<IotMessage, NoTopic>)
        ensures
            match r {
                Ok(message) => {
                    &&& is_for(message, *device, ms)
                    &&& message.cmd == cmd
                    &&& message.cmd_version == cmd_version
                    &&& message.data == data
                    &&& message.kind == kind
                },
                Err(_) => device.device_ext.device_settings.topic is None,
            },
    {
        match device.device_topic() {
            Ok(topic) => Ok(
                IotMessage {
                    topic: topic.to_owned(),
                    cmd,
                    cmd_version,
                    data,
                    transaction: transaction(ms),
                    kind,
                },
            ),
            Err(err) => Err(err),
        }
    }

    /// Asks a device for its status.
    pub fn request_status_update(&self, device: &DeviceEntry, ms: u64) -> (r: Result<
        IotMessage,
        NoTopic,
    >)
        ensures
            match r {
                Ok(message) => {
                    &&& understood(device.sku@, message) is Status
                    &&& is_for(message, *device, ms)
                    &&& message.cmd@ == "status"@
                    &&& message.cmd_version == 2
                    &&& message.data is Nothing
                    &&& message.kind == 0
                },
                Err(_) => device.device_ext.device_settings.topic is None,
            },
    {
        self.message(device, "status", 2, IotData::Nothing, 0, ms)
    }

    pub fn set_power_state(&self, device: &DeviceEntry, on: bool, ms: u64) -> (r: Result<
        IotMessage,
        NoTopic,
    >)
        ensures
            match r {
                Ok(message) => {
                    &&& understood(device.sku@, message) == Wish::Power(on)
                    &&& is_for(message, *device, ms)
                    &&& message.cmd@ == "turn"@
                    &&& message.cmd_version == 0
                    &&& message.data == IotData::Value(power_value(device.sku@, on))
                    &&& message.kind == 1
                },
                Err(_) => device.device_ext.device_settings.topic is None,
            },
    {
        proof {
            reveal_strlit("turn");
            reveal_strlit("brightness");
            assert("turn"@.len() != "brightness"@.len());
        }
        let sku = device.sku.as_str();
        let value: u8 = if str_eq(sku, "H5080") || str_eq(sku, "H5083") {
            if on {
                17
            } else {
                16
            }
        } else if on {
            1
        } else {
            0
        };
        self.message(device, "turn", 0, IotData::Value(value), 1, ms)
    }

    pub fn set_brightness(&self, device: &DeviceEntry, percent: u8, ms: u64) -> (r: Result<
        IotMessage,
        NoTopic,
    >)
        ensures
            match r {
                Ok(message) => {
                    &&& understood(device.sku@, message) == Wish::Brightness(percent)
                    &&& is_for(message, *device, ms)
                    &&& message.cmd@ == "brightness"@
                    &&& message.cmd_version == 0
                    &&& message.data == IotData::Value(percent)
                    &&& message.kind == 1
                },
                Err(_) => device.device_ext.device_settings.topic is None,
            },
    {
        self.message(device, "brightness", 0, IotData::Value(percent), 1, ms)
    }

    /// A colour temperature goes out with a black colour.
    pub fn set_color_temperature(&self, device: &DeviceEntry, kelvin: u32, ms: u64) -> (r: Result<
        IotMessage,
        NoTopic,
    >)
        ensures
            match r {
                Ok(message) => {
                    &&& kelvin > 0 ==> understood(device.sku@, message) == Wish::ColorTemperature(
                        kelvin,
                    )
                    &&& is_for(message, *device, ms)
                    &&& message.cmd@ == "colorwc"@
                    &&& message.cmd_version == 0
                    &&& message.data == (IotData::Color { color: DeviceColor::black(), kelvin })
                    &&& message.kind == 1
                },
                Err(_) => device.device_ext.device_settings.topic is None,
            },
    {
        let data = IotData::Color { color: DeviceColor::default(), kelvin };
        self.message(device, "colorwc", 0, data, 1, ms)
    }

    /// A colour goes out with a colour temperature of zero.
    pub fn set_color_rgb(&self, device: &DeviceEntry, r: u8, g: u8, b: u8, ms: u64) -> (res: Result<
        IotMessage,
        NoTopic,
    >)
        ensures
            match res {
                Ok(message) => {
                    &&& understood(device.sku@, message) == Wish::Color(r, g, b)
                    &&& is_for(message, *device, ms)
                    &&& message.cmd@ == "colorwc"@
                    &&& message.cmd_version == 0
                    &&& message.data == (IotData::Color {
                        color: DeviceColor { r, g, b },
                        kelvin: 0,
                    })
                    &&& message.kind == 1
                },
                Err(_) => device.device_ext.device_settings.topic is None,
            },
    {
        let data = IotData::Color { color: DeviceColor { r, g, b }, kelvin: 0 };
        self.message(device, "colorwc", 0, data, 1, ms)
    }

    /// Sends raw frames, as base64 texts.
    pub fn send_real(&self, device: &DeviceEntry, commands: Vec<String>, ms: u64) -> (r: Result<
        IotMessage,
        NoTopic,
    >)
        ensures
            match r {
                Ok(message) => {
                    &&& understood(device.sku@, message) == Wish::Frames(commands@)
                    &&& is_for(message, *device, ms)
                    &&& message.cmd@ == "ptReal"@
                    &&& message.cmd_version == 0
                    &&& message.data == IotData::Command(commands)
                    &&& message.kind == 1
                },
                Err(_) => device.device_ext.device_settings.topic is None,
            },
    {
        self.message(device, "ptReal", 0, IotData::Command(commands), 1, ms)
    }

    /// The messages of a shortcut, in its order.
    pub fn activate_one_click(&self, item: &ParsedOneClick) -> (r: Vec<Publication>)
        ensures
            publication_texts(r@) == one_click_texts(*item, item.entries@.len()),
    {
        let mut out: Vec<Publication> = Vec::new();
        assert(publication_texts(out@) =~= one_click_texts(*item, 0));
        for i in 0..item.entries.len()
            invariant
                publication_texts(out@) == one_click_texts(*item, i as nat),
        {
            let entry = &item.entries[i];
            let ghost before = publication_texts(out@);
            let ghost texts = Seq::new(
                entry.msgs@.len(),
                |k: int| (entry.topic@, entry.msgs@[k]@),
            );
            assert(before + texts.take(0) =~= before);
            for k in 0..entry.msgs.len()
                invariant
                    texts == Seq::new(
                        entry.msgs@.len(),
                        |k: int| (entry.topic@, entry.msgs@[k]@),
                    ),
                    publication_texts(out@) == before + texts.take(k as int),
            {
                let ghost so_far = publication_texts(out@);
                out.push(
                    Publication { topic: entry.topic.clone(), payload: entry.msgs[k].clone() },
                );
                assert(publication_texts(out@) =~= so_far.push(texts[k as int]));
                assert(publication_texts(out@) =~= before + texts.take(k + 1));
            }
            assert(texts.take(texts.len() as int) =~= texts);
            assert(publication_texts(out@) =~= one_click_texts(*item, (i + 1) as nat));
        }
        out
    }
}

} // verus!
