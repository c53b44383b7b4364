//! Where to connect, and as whom.

use vstd::prelude::*;

use crate::protocol::PORT;

verus! {

#[derive(Debug)]
pub struct Conf {
    pub host: String,
    pub port: u16,
    pub user: String,
    pub password: String,
    pub vhost: String,
}

impl Clone for Conf {
    fn clone(&self) -> (c: Conf)
        ensures
            c.host@ == self.host@,
            c.port == self.port,
            c.user@ == self.user@,
            c.password@ == self.password@,
            c.vhost@ == self.vhost@,
    {
        Conf {
            host: self.host.clone(),
            port: self.port,
            user: self.user.clone(),
            password: self.password.clone(),
            vhost: self.vhost.clone(),
        }
    }
}

impl Default for Conf {
    /// The local broker on the default port, as `guest` with the password
    /// `guest`, on the virtual host `/`.
    fn default() -> (c: Conf)
        ensures
            c.host@ == "localhost"@,
            c.port == 5672,
            c.user@ == "guest"@,
            c.password@ == "guest"@,
            c.vhost@ == "/"@,
    {
        Conf {
            host: "localhost".to_owned(),
            port: PORT,
            user: "guest".to_owned(),
            password: "guest".to_owned(),
            vhost: "/".to_owned(),
        }
    }
}

} // verus!
