//! Counting the query families a piece of work issues.

use vstd::prelude::*;

verus! {

/// The query families recorded while a capture is open.
pub struct QueryCapture {
    families: Option<Vec<String>>,
}

impl QueryCapture {
    /// The families recorded so far, or `None` while no capture is open.
    pub closed spec fn recorded(&self) -> Option<Seq<Seq<char>>> {
        match self.families {
            Some(list) => Some(list@.map_values(|family: String| family@)),
            None => None,
        }
    }

    /// No capture open.
    pub fn idle() -> (capture: QueryCapture)
        ensures
            capture.recorded() is None,
    {
        QueryCapture { families: None }
    }

    /// Opens a capture with nothing recorded.
    pub fn begin(&mut self)
        ensures
            final(self).recorded() == Some(Seq::<Seq<char>>::empty()),
    {
        self.families = Some(Vec::new());
        assert(self.recorded().unwrap() =~= Seq::<Seq<char>>::empty());
    }

    /// Closes the capture and hands back what it recorded, in order.
    pub fn finish(&mut self) -> (families: Vec<String>)
        ensures
            final(self).recorded() is None,
            families@.map_values(|family: String| family@) == match old(self).recorded() {
                Some(list) => list,
                None => Seq::<Seq<char>>::empty(),
            },
    {
        let taken = self.families.take();
        match taken {
            Some(list) => list,
            None => {
                let empty: Vec<String> = Vec::new();
                assert(empty@.map_values(|family: String| family@) =~= Seq::<Seq<char>>::empty());
                empty
            },
        }
    }
}

/// Records a query family when a capture is open; does nothing otherwise.
pub fn record(capture: &mut QueryCapture, family: &str)
    ensures
        final(capture).recorded() == match old(capture).recorded() {
            Some(list) => Some(list.push(family@)),
            None => None::<Seq<Seq<char>>>,
        },
{
    match &mut capture.families {
        Some(families) => {
            families.push(String::from_str(family));
        },
        None => {},
    }
    proof {
        if capture.families is Some {
            assert(capture.recorded().unwrap() =~= old(capture).recorded().unwrap().push(family@));
        }
    }
}

} // verus!
