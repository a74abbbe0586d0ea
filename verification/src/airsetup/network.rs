use vstd::prelude::*;

verus! {

/// Model of the network step.
pub struct NetworkModel {
    pub available: Seq<String>,
    pub selected: Option<String>,
    pub skipped: bool,
}

/// The network step: the user picks an SSID or skips.
#[derive(Debug)]
pub struct NetworkStep {
    available: Vec<String>,
    pub selected: Option<String>,
    pub skipped: bool,
}

impl View for NetworkStep {
    type V = NetworkModel;

    closed spec fn view(&self) -> NetworkModel {
        NetworkModel { available: self.available@, selected: self.selected, skipped: self.skipped }
    }
}

/// The step may be left: an SSID is picked or the step is skipped.
pub open spec fn network_valid(m: NetworkModel) -> bool {
    m.selected.is_some() || m.skipped
}

impl NetworkStep {
    pub fn new() -> (s: Self)
        ensures
            s@.available.len() == 0,
            s@.selected.is_none(),
            !s@.skipped,
    {
        NetworkStep { available: Vec::new(), selected: None, skipped: false }
    }

    /// Stores the list of networks found by a scan.
    pub fn set_available(&mut self, networks: Vec<String>)
        ensures
            final(self)@ == (NetworkModel { available: networks@, ..old(self)@ }),
    {
        self.available = networks;
    }

    pub fn available(&self) -> (s: &[String])
        ensures
            s@ == self@.available,
    {
        self.available.as_slice()
    }

    /// Picks a network by SSID and cancels a skip.
    pub fn select(&mut self, ssid: &str)
        ensures
            final(self)@.available == old(self)@.available,
            final(self)@.selected.is_some(),
            final(self)@.selected.unwrap()@ == ssid@,
            !final(self)@.skipped,
    {
        self.selected = Some(ssid.to_owned());
        self.skipped = false;
    }

    /// Skips the step and drops a picked SSID.
    pub fn skip(&mut self)
        ensures
            final(self)@ == (NetworkModel { selected: None, skipped: true, ..old(self)@ }),
    {
        self.skipped = true;
        self.selected = None;
    }

    pub fn is_valid(&self) -> (r: bool)
        ensures
            r == network_valid(self@),
    {
        self.selected.is_some() || self.skipped
    }
}

impl Default for NetworkStep {
    fn default() -> (s: Self)
        ensures
            s@.available.len() == 0,
            s@.selected.is_none(),
            !s@.skipped,
    {
        Self::new()
    }
}

} // verus!
