//! Metrics that go nowhere.
use vstd::prelude::*;

verus! {

/// A provider of meters whose metrics go nowhere.
#[derive(Debug)]
pub struct NoopMeterProvider {
    private: (),
}

impl View for NoopMeterProvider {
    type V = ();

    /// There is nothing in it.
    closed spec fn view(&self) -> () {
        self.private
    }
}

impl NoopMeterProvider {
    /// A provider of meters whose metrics go nowhere.
    pub fn new() -> (r: NoopMeterProvider)
        ensures
            r@ == (),
    {
        NoopMeterProvider { private: () }
    }

    /// A meter, whatever it is for.
    pub fn meter(&self) -> (r: NoopMeter)
        ensures
            r@ == (),
    {
        NoopMeter::new()
    }
}

impl Default for NoopMeterProvider {
    fn default() -> (r: NoopMeterProvider)
        ensures
            r@ == (),
    {
        NoopMeterProvider::new()
    }
}

/// A meter whose metrics go nowhere.
#[derive(Debug)]
pub struct NoopMeter {
    private: (),
}

impl View for NoopMeter {
    type V = ();

    /// There is nothing in it.
    closed spec fn view(&self) -> () {
        self.private
    }
}

impl NoopMeter {
    /// A meter whose metrics go nowhere.
    pub fn new() -> (r: NoopMeter)
        ensures
            r@ == (),
    {
        NoopMeter { private: () }
    }
}

impl Default for NoopMeter {
    fn default() -> (r: NoopMeter)
        ensures
            r@ == (),
    {
        NoopMeter::new()
    }
}

} // verus!
