use vstd::prelude::*;

verus! {

/// Values that can be sent over a beanstalkd connection.
pub trait BeanstalkSerialisable {
    /// The bytes that stand for the value on the wire.
    spec fn wire(&self) -> Seq<u8>;

    /// Converts the value to its wire form.
    fn serialise_beanstalk(&self) -> (r: Vec<u8>)
        ensures
            r@ == self.wire(),
    ;
}

} // verus!
