//! Pool sizing and policy.

use vstd::prelude::*;

verus! {

/// The knobs that size a pool and steer how it hands connections out.
#[derive(Clone, Copy, Debug, PartialEq, Eq)]
pub struct Config {
    /// Connections established eagerly when the pool is built.
    pub initial_size: usize,
    /// Hard upper bound on the connections the pool owns at any time.
    pub max_size: usize,
    /// Connections requested at once when a caller finds the pool empty.
    pub acquire_increment: usize,
    /// Background helpers that create and test connections.
    pub helper_tasks: usize,
    /// Whether a connection is tested before it is handed out.
    pub test_on_check_out: bool,
}

impl Config {
    /// Why the configuration is refused, or `None` where it is acceptable.
    /// The first fault in the order below is the one reported.
    pub open spec fn rejection(&self) -> Option<Seq<char>> {
        if self.initial_size > self.max_size {
            Some("initial_size must not be greater than max_size"@)
        } else if self.max_size == 0 {
            Some("max_size must be positive"@)
        } else if self.acquire_increment == 0 {
            Some("acquire_increment must be positive"@)
        } else if self.helper_tasks == 0 {
            Some("helper_tasks must be positive"@)
        } else {
            None
        }
    }

    /// A configuration is valid when nothing is refused about it.
    pub open spec fn valid(&self) -> bool {
        &&& self.initial_size <= self.max_size
        &&& self.max_size > 0
        &&& self.acquire_increment > 0
        &&& self.helper_tasks > 0
    }

    /// Checks the configuration and names the first fault found.
    pub fn validate(&self) -> (res: Result<(), &'static str>)
        ensures
            res is Ok <==> self.valid(),
            res is Ok <==> self.rejection() is None,
            res matches Err(reason) ==> self.rejection() == Some(reason@),
    {
        if self.initial_size > self.max_size {
            return Err("initial_size must not be greater than max_size");
        }
        if self.max_size == 0 {
            return Err("max_size must be positive");
        }
        if self.acquire_increment == 0 {
            return Err("acquire_increment must be positive");
        }
        if self.helper_tasks == 0 {
            return Err("helper_tasks must be positive");
        }
        Ok(())
    }
}

impl Default for Config {
    fn default() -> (config: Config)
        ensures
            config == (Config {
                initial_size: 3,
                max_size: 15,
                acquire_increment: 3,
                helper_tasks: 3,
                test_on_check_out: false,
            }),
            config.valid(),
    {
        Config {
            initial_size: 3,
            max_size: 15,
            acquire_increment: 3,
            helper_tasks: 3,
            test_on_check_out: false,
        }
    }
}

} // verus!
