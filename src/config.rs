use vstd::prelude::*;

verus! {

/// `value` where it is given, `default` otherwise.
pub open spec fn or_default(value: Option<Seq<char>>, default: Seq<char>) -> Seq<char> {
    match value {
        Some(v) => v,
        None => default,
    }
}

pub open spec fn opt_view(value: Option<String>) -> Option<Seq<char>> {
    match value {
        Some(v) => Some(v@),
        None => None,
    }
}

/// The settings of the broker connection, fixed once at startup and shared by
/// the gateway and the consumer.
#[derive(Clone, Debug, PartialEq, Eq)]
pub struct Config {
    /// Broker address.
    pub server: String,
    pub username: String,
    pub password: String,
    /// Consumer group identifier.
    pub group_id: String,
    /// Topic that is published to and subscribed to.
    pub topic: String,
}

fn given_or(value: Option<String>, default: &str) -> (r: String)
    ensures
        r@ == or_default(opt_view(value), default@),
{
    match value {
        Some(v) => v,
        None => String::from_str(default),
    }
}

impl Config {
    /// Builds the settings from the values that were given, each unset one
    /// taking its default: broker `localhost:9092`, user and password
    /// `kafka`, group `1`, topic `kong-upstream`.
    pub fn from_settings(
        server: Option<String>,
        username: Option<String>,
        password: Option<String>,
        group_id: Option<String>,
        topic: Option<String>,
    ) -> (r: Config)
        ensures
            r.server@ == or_default(opt_view(server), "localhost:9092"@),
            r.username@ == or_default(opt_view(username), "kafka"@),
            r.password@ == or_default(opt_view(password), "kafka"@),
            r.group_id@ == or_default(opt_view(group_id), "1"@),
            r.topic@ == or_default(opt_view(topic), "kong-upstream"@),
    {
        Config {
            server: given_or(server, "localhost:9092"),
            username: given_or(username, "kafka"),
            password: given_or(password, "kafka"),
            group_id: given_or(group_id, "1"),
            topic: given_or(topic, "kong-upstream"),
        }
    }
}

} // verus!
