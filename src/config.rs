use vstd::prelude::*;
use vstd::string::*;

verus! {

/// Why no store client could be had.
#[derive(Debug)]
pub enum RedisConnectionError {
    /// The store address in the environment is unset or not text.
    EnvVarError,
    /// The store address was refused.
    ClientCreationError(String),
    /// The store could not be reached.
    ConnectionError(String),
    /// The store did not answer a ping.
    ServerNotResponding(String),
}

impl RedisConnectionError {
    /// What the error says to a person.
    pub fn message(&self) -> (r: String)
        ensures
            self is EnvVarError ==> r@ == "Environment variable REDIS_URL is not set or invalid"@,
            self matches RedisConnectionError::ClientCreationError(d) ==> r@
                == "Failed to create Redis client: "@ + d@,
            self matches RedisConnectionError::ConnectionError(d) ==> r@
                == "Failed to connect to Redis server: "@ + d@,
            self matches RedisConnectionError::ServerNotResponding(d) ==> r@
                == "Redis server is not responding: "@ + d@,
    {
        match self {
            RedisConnectionError::EnvVarError => String::from_str(
                "Environment variable REDIS_URL is not set or invalid",
            ),
            RedisConnectionError::ClientCreationError(d) => String::from_str(
                "Failed to create Redis client: ",
            ).concat(d.as_str()),
            RedisConnectionError::ConnectionError(d) => String::from_str(
                "Failed to connect to Redis server: ",
            ).concat(d.as_str()),
            RedisConnectionError::ServerNotResponding(d) => String::from_str(
                "Redis server is not responding: ",
            ).concat(d.as_str()),
        }
    }
}

/// The decimal digit of `d`, for `d < 10`.
pub open spec fn digit_char(d: nat) -> char {
    ('0' as u8 + d) as char
}

/// The decimal writing of `n`, without leading zeros.
pub open spec fn decimal(n: nat) -> Seq<char>
    decreases n,
{
    if n < 10 {
        seq![digit_char(n)]
    } else {
        decimal(n / 10).push(digit_char(n % 10))
    }
}

fn digit_str(d: u64) -> (r: &'static str)
    requires
        d < 10,
    ensures
        r@ == seq![digit_char(d as nat)],
{
    proof {
        reveal_strlit("0");
        reveal_strlit("1");
        reveal_strlit("2");
        reveal_strlit("3");
        reveal_strlit("4");
        reveal_strlit("5");
        reveal_strlit("6");
        reveal_strlit("7");
        reveal_strlit("8");
        reveal_strlit("9");
    }
    let r = if d == 0 {
        "0"
    } else if d == 1 {
        "1"
    } else if d == 2 {
        "2"
    } else if d == 3 {
        "3"
    } else if d == 4 {
        "4"
    } else if d == 5 {
        "5"
    } else if d == 6 {
        "6"
    } else if d == 7 {
        "7"
    } else if d == 8 {
        "8"
    } else {
        "9"
    };
    assert(r@ =~= seq![digit_char(d as nat)]);
    r
}

/// Writes `n` in decimal.
pub fn to_decimal(n: u64) -> (r: String)
    ensures
        r@ == decimal(n as nat),
    decreases n,
{
    if n < 10 {
        String::from_str(digit_str(n))
    } else {
        let head = to_decimal(n / 10);
        let r = head.concat(digit_str(n % 10));
        assert(r@ =~= decimal(n as nat));
        r
    }
}

/// Where the store is looked for when the environment names no address.
pub struct RedisConfig {
    url: String,
    default_port: u16,
}

impl Default for RedisConfig {
    fn default() -> (r: RedisConfig)
        ensures
            r.base_url() == "redis://localhost"@,
            r.port() == 6379,
    {
        RedisConfig { url: String::from_str("redis://localhost"), default_port: 6379 }
    }
}

impl RedisConfig {
    /// The base url of the fallback address.
    pub closed spec fn base_url(&self) -> Seq<char> {
        self.url@
    }

    /// The port of the fallback address.
    pub closed spec fn port(&self) -> u16 {
        self.default_port
    }

    /// The port named in the fallback address.
    pub fn default_port(&self) -> (r: u16)
        ensures
            r == self.port(),
    {
        self.default_port
    }

    /// The fallback address: the base url, a colon and the port.
    pub fn fallback_url(&self) -> (r: String)
        ensures
            r@ == self.base_url() + ":"@ + decimal(self.port() as nat),
    {
        let with_colon = self.url.clone().concat(":");
        with_colon.concat(to_decimal(self.default_port as u64).as_str())
    }

    /// The store address: the one from the environment when it is set,
    /// else the fallback.
    pub fn redis_url(&self, from_env: Option<String>) -> (r: String)
        ensures
            from_env matches Some(u) ==> r == u,
            from_env is None ==> r@ == self.base_url() + ":"@ + decimal(self.port() as nat),
    {
        match from_env {
            Some(u) => u,
            None => self.fallback_url(),
        }
    }
}

} // verus!
