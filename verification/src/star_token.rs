use vstd::prelude::*;
use crate::balances::Balances;
use crate::errors::LaunchError;

verus! {

/// The loyalty-points fungible token: a minimal ledger with an admin-gated
/// mint and plain transfers, kept as one explicit state record. Principals
/// are plain `u64` ids; checking caller credentials is the surrounding
/// host's work, so the authorized caller is a parameter.
pub struct StarToken {
    initialized: bool,
    admin: u64,
    name: String,
    symbol: String,
    decimals: u32,
    total_supply: i128,
    balances: Balances,
}

impl StarToken {
    pub closed spec fn spec_initialized(self) -> bool {
        self.initialized
    }

    pub closed spec fn spec_admin(self) -> u64 {
        self.admin
    }

    pub closed spec fn spec_name(self) -> Seq<char> {
        self.name@
    }

    pub closed spec fn spec_symbol(self) -> Seq<char> {
        self.symbol@
    }

    pub closed spec fn spec_decimals(self) -> u32 {
        self.decimals
    }

    pub closed spec fn spec_total_supply(self) -> i128 {
        self.total_supply
    }

    pub closed spec fn spec_balance(self, who: u64) -> i128 {
        self.balances.spec_get(who)
    }

    /// Balances are non-negative and sum exactly to the total supply, and
    /// nothing circulates before initialization.
    pub closed spec fn wf(self) -> bool {
        &&& self.balances.wf()
        &&& self.balances.spec_total() == self.total_supply
        &&& !self.initialized ==> self.total_supply == 0
    }

    /// A balance is never negative and never exceeds the supply.
    pub proof fn lemma_balance_bounds(self, who: u64)
        requires
            self.wf(),
        ensures
            0 <= self.spec_balance(who) <= self.spec_total_supply(),
    {
        self.balances.lemma_get_nonneg(who);
        self.balances.lemma_get_le_total(who);
    }

    /// The empty token, before initialization.
    pub fn new() -> (r: StarToken)
        ensures
            r.wf(),
            !r.spec_initialized(),
            r.spec_total_supply() == 0,
            forall|w: u64| r.spec_balance(w) == 0,
    {
        StarToken {
            initialized: false,
            admin: 0,
            name: String::new(),
            symbol: String::new(),
            decimals: 0,
            total_supply: 0,
            balances: Balances::new(),
        }
    }

    /// Records the admin and the token metadata, exactly once; the token
    /// has seven decimals and starts with no supply.
    pub fn initialize(&mut self, admin: u64, name: String, symbol: String) -> (r: Result<
        (),
        LaunchError,
    >)
        requires
            old(self).wf(),
        ensures
            final(self).wf(),
            match r {
                Err(e) => {
                    &&& e == LaunchError::AlreadyInitialized
                    &&& old(self).spec_initialized()
                    &&& *final(self) == *old(self)
                },
                Ok(()) => {
                    &&& !old(self).spec_initialized()
                    &&& final(self).spec_initialized()
                    &&& final(self).spec_admin() == admin
                    &&& final(self).spec_name() == name@
                    &&& final(self).spec_symbol() == symbol@
                    &&& final(self).spec_decimals() == 7
                    &&& final(self).spec_total_supply() == 0
                    &&& forall|w: u64|
                        final(self).spec_balance(w) == old(self).spec_balance(w)
                },
            },
    {
        if self.initialized {
            return Err(LaunchError::AlreadyInitialized);
        }
        self.initialized = true;
        self.admin = admin;
        self.name = name;
        self.symbol = symbol;
        self.decimals = 7;
        self.total_supply = 0;
        Ok(())
    }

    /// The first check `mint` fails, if any.
    pub open spec fn mint_err(self, caller: u64, amount: i128) -> Option<LaunchError> {
        if !self.spec_initialized() {
            Some(LaunchError::NotInitialized)
        } else if caller != self.spec_admin() {
            Some(LaunchError::Unauthorized)
        } else if amount <= 0 {
            Some(LaunchError::InvalidAmount)
        } else {
            None
        }
    }

    /// Creates `amount` new units for `to`; only the admin may call this.
    pub fn mint(&mut self, caller: u64, to: u64, amount: i128) -> (r: Result<(), LaunchError>)
        requires
            old(self).wf(),
            old(self).mint_err(caller, amount) is None ==> old(self).spec_total_supply()
                + amount <= i128::MAX,
        ensures
            final(self).wf(),
            match r {
                Err(e) => {
                    &&& Some(e) == old(self).mint_err(caller, amount)
                    &&& *final(self) == *old(self)
                },
                Ok(()) => {
                    &&& old(self).mint_err(caller, amount) is None
                    &&& final(self).spec_balance(to) == old(self).spec_balance(to) + amount
                    &&& forall|w: u64|
                        w != to ==> final(self).spec_balance(w) == old(self).spec_balance(w)
                    &&& final(self).spec_total_supply() == old(self).spec_total_supply()
                        + amount
                    &&& final(self).spec_initialized() == old(self).spec_initialized()
                    &&& final(self).spec_admin() == old(self).spec_admin()
                    &&& final(self).spec_name() == old(self).spec_name()
                    &&& final(self).spec_symbol() == old(self).spec_symbol()
                    &&& final(self).spec_decimals() == old(self).spec_decimals()
                },
            },
    {
        if !self.initialized {
            return Err(LaunchError::NotInitialized);
        }
        if caller != self.admin {
            return Err(LaunchError::Unauthorized);
        }
        if amount <= 0 {
            return Err(LaunchError::InvalidAmount);
        }
        let balance = self.balances.get(to);
        proof {
            self.balances.lemma_get_nonneg(to);
            self.balances.lemma_get_le_total(to);
        }
        self.balances.set(to, balance + amount);
        self.total_supply = self.total_supply + amount;
        Ok(())
    }

    /// The first check `transfer` fails, if any.
    pub open spec fn transfer_err(self, from: u64, amount: i128) -> Option<LaunchError> {
        if amount <= 0 {
            Some(LaunchError::InvalidAmount)
        } else if self.spec_balance(from) < amount {
            Some(LaunchError::InsufficientPoints)
        } else {
            None
        }
    }

    /// Moves `amount` from `from` to `to`; `from` is the verified caller.
    /// A transfer to oneself leaves every balance as it was.
    pub fn transfer(&mut self, from: u64, to: u64, amount: i128) -> (r: Result<(), LaunchError>)
        requires
            old(self).wf(),
        ensures
            final(self).wf(),
            match r {
                Err(e) => {
                    &&& Some(e) == old(self).transfer_err(from, amount)
                    &&& *final(self) == *old(self)
                },
                Ok(()) => {
                    &&& old(self).transfer_err(from, amount) is None
                    &&& final(self).spec_total_supply() == old(self).spec_total_supply()
                    &&& (if from == to {
                        final(self).spec_balance(from) == old(self).spec_balance(from)
                    } else {
                        final(self).spec_balance(from) == old(self).spec_balance(from) - amount
                            && final(self).spec_balance(to) == old(self).spec_balance(to)
                            + amount
                    })
                    &&& forall|w: u64|
                        w != from && w != to ==> final(self).spec_balance(w) == old(
                            self,
                        ).spec_balance(w)
                    &&& final(self).spec_initialized() == old(self).spec_initialized()
                    &&& final(self).spec_admin() == old(self).spec_admin()
                    &&& final(self).spec_name() == old(self).spec_name()
                    &&& final(self).spec_symbol() == old(self).spec_symbol()
                    &&& final(self).spec_decimals() == old(self).spec_decimals()
                },
            },
    {
        if amount <= 0 {
            return Err(LaunchError::InvalidAmount);
        }
        let from_balance = self.balances.get(from);
        if from_balance < amount {
            return Err(LaunchError::InsufficientPoints);
        }
        proof {
            self.balances.lemma_get_nonneg(from);
        }
        self.balances.set(from, from_balance - amount);
        let to_balance = self.balances.get(to);
        proof {
            self.balances.lemma_get_nonneg(to);
            self.balances.lemma_get_le_total(to);
        }
        self.balances.set(to, to_balance + amount);
        Ok(())
    }

    /// Reads a balance; accounts never seen have balance zero.
    pub fn balance_of(&self, account: u64) -> (r: i128)
        ensures
            r == self.spec_balance(account),
    {
        self.balances.get(account)
    }

    /// The total of everything ever minted.
    pub fn total_supply(&self) -> (r: i128)
        ensures
            r == self.spec_total_supply(),
    {
        self.total_supply
    }

    /// The token name; fails before initialization.
    pub fn name(&self) -> (r: Result<String, LaunchError>)
        ensures
            match r {
                Ok(s) => self.spec_initialized() && s@ == self.spec_name(),
                Err(e) => e == LaunchError::NotInitialized && !self.spec_initialized(),
            },
    {
        if self.initialized {
            Ok(self.name.clone())
        } else {
            Err(LaunchError::NotInitialized)
        }
    }

    /// The token symbol; fails before initialization.
    pub fn symbol(&self) -> (r: Result<String, LaunchError>)
        ensures
            match r {
                Ok(s) => self.spec_initialized() && s@ == self.spec_symbol(),
                Err(e) => e == LaunchError::NotInitialized && !self.spec_initialized(),
            },
    {
        if self.initialized {
            Ok(self.symbol.clone())
        } else {
            Err(LaunchError::NotInitialized)
        }
    }

    /// The number of decimal places; fails before initialization.
    pub fn decimals(&self) -> (r: Result<u32, LaunchError>)
        ensures
            match r {
                Ok(d) => self.spec_initialized() && d == self.spec_decimals(),
                Err(e) => e == LaunchError::NotInitialized && !self.spec_initialized(),
            },
    {
        if self.initialized {
            Ok(self.decimals)
        } else {
            Err(LaunchError::NotInitialized)
        }
    }

    /// The admin principal; fails before initialization.
    pub fn admin(&self) -> (r: Result<u64, LaunchError>)
        ensures
            match r {
                Ok(a) => self.spec_initialized() && a == self.spec_admin(),
                Err(e) => e == LaunchError::NotInitialized && !self.spec_initialized(),
            },
    {
        if self.initialized {
            Ok(self.admin)
        } else {
            Err(LaunchError::NotInitialized)
        }
    }
}

} // verus!
