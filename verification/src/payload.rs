//! The configuration of a run and the one argument that its message carries.

use vstd::prelude::*;

verus! {

/// The text that is sent when no payload was asked for.
pub const DEFAULT_TEXT: &'static str = "Hello world!";

/// The argument of a message, as a mathematical value.
pub enum Payload {
    /// A signed 32-bit integer.
    Int(i32),
    /// A 32-bit float, held as its IEEE 754 bit pattern.
    Float(u32),
    /// A truth value.
    Bool(bool),
    /// A text.
    Text(Seq<char>),
}

/// The argument of a message.
#[derive(Clone, Debug, PartialEq, Eq)]
pub enum PayloadValue {
    /// A signed 32-bit integer.
    Int(i32),
    /// A 32-bit float, held as its IEEE 754 bit pattern.
    Float(u32),
    /// A truth value.
    Bool(bool),
    /// A text.
    Text(String),
}

impl View for PayloadValue {
    type V = Payload;

    open spec fn view(&self) -> Payload {
        match *self {
            PayloadValue::Int(v) => Payload::Int(v),
            PayloadValue::Float(bits) => Payload::Float(bits),
            PayloadValue::Bool(b) => Payload::Bool(b),
            PayloadValue::Text(s) => Payload::Text(s@),
        }
    }
}

/// What a run was asked to do.
///
/// The four payload fields are meant to be alternatives, but nothing keeps a
/// caller from setting several: `selected_payload` says which one counts.
#[derive(Clone, Debug)]
pub struct Config {
    /// The OSC address of the message.
    pub address: String,
    /// The UDP port on the loopback interface that the message goes to.
    pub port: u16,
    /// An integer payload.
    pub int_value: Option<i32>,
    /// A float payload, as its IEEE 754 bit pattern.
    pub float_bits: Option<u32>,
    /// A boolean payload.
    pub bool_value: Option<bool>,
    /// A text payload.
    pub text: Option<String>,
    /// How many times the message is sent.
    pub count: u128,
    /// The pause between two sends, in milliseconds.
    pub delay: u128,
}

/// The payload that a configuration stands for: the integer if there is one,
/// else the float, else the boolean, else the text, else the default text.
pub open spec fn selected_payload(config: &Config) -> Payload {
    if let Some(v) = config.int_value {
        Payload::Int(v)
    } else if let Some(bits) = config.float_bits {
        Payload::Float(bits)
    } else if let Some(b) = config.bool_value {
        Payload::Bool(b)
    } else if let Some(s) = config.text {
        Payload::Text(s@)
    } else {
        Payload::Text(DEFAULT_TEXT@)
    }
}

/// Picks the payload of a configuration.
pub fn select_payload(config: &Config) -> (value: PayloadValue)
    ensures
        value@ == selected_payload(config),
{
    if let Some(v) = config.int_value {
        return PayloadValue::Int(v);
    }
    if let Some(bits) = config.float_bits {
        return PayloadValue::Float(bits);
    }
    if let Some(b) = config.bool_value {
        return PayloadValue::Bool(b);
    }
    if let Some(s) = &config.text {
        return PayloadValue::Text(s.clone());
    }
    PayloadValue::Text(DEFAULT_TEXT.to_owned())
}

/// The argument list of the message: always exactly one argument, the
/// selected payload.
pub fn make_args(config: &Config) -> (args: Vec<PayloadValue>)
    ensures
        args@.len() == 1,
        args@[0]@ == selected_payload(config),
{
    let mut args: Vec<PayloadValue> = Vec::new();
    args.push(select_payload(config));
    args
}

/// With no payload asked for, the default text is sent.
pub proof fn lemma_default_payload(config: &Config)
    requires
        config.int_value is None,
        config.float_bits is None,
        config.bool_value is None,
        config.text is None,
    ensures
        selected_payload(config) == Payload::Text(DEFAULT_TEXT@),
        DEFAULT_TEXT@ == seq!['H', 'e', 'l', 'l', 'o', ' ', 'w', 'o', 'r', 'l', 'd', '!'],
{
    reveal_strlit("Hello world!");
    assert(DEFAULT_TEXT@ =~= seq!['H', 'e', 'l', 'l', 'o', ' ', 'w', 'o', 'r', 'l', 'd', '!']);
}

/// With several payloads asked for, the integer goes before the float, the
/// float before the boolean, and the boolean before the text.
pub proof fn lemma_payload_precedence(config: &Config)
    ensures
        config.int_value matches Some(v) ==> selected_payload(config) == Payload::Int(v),
        config.int_value is None ==> (config.float_bits matches Some(bits) ==> selected_payload(
            config,
        ) == Payload::Float(bits)),
        config.int_value is None && config.float_bits is None ==> (config.bool_value matches Some(
            b,
        ) ==> selected_payload(config) == Payload::Bool(b)),
        config.int_value is None && config.float_bits is None && config.bool_value is None ==> (
        config.text matches Some(s) ==> selected_payload(config) == Payload::Text(s@)),
{
}

} // verus!
