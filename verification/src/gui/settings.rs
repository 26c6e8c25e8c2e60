//! The choices the settings panel offers.
use vstd::prelude::*;
use vstd::string::StringExecFns;

verus! {

/// A number of worker threads; 0 lets the program choose.
#[derive(Debug, Clone, Copy, PartialEq, Eq, Structural)]
pub struct Workers(pub usize);

impl Workers {
    /// The numbers of worker threads offered, in order.
    pub fn choices() -> (r: Vec<Workers>)
        ensures
            r@ == seq![
                Workers(0),
                Workers(1),
                Workers(2),
                Workers(4),
                Workers(6),
                Workers(8),
                Workers(10),
                Workers(12),
                Workers(16),
            ],
    {
        let r = vec![
            Workers(0),
            Workers(1),
            Workers(2),
            Workers(4),
            Workers(6),
            Workers(8),
            Workers(10),
            Workers(12),
            Workers(16),
        ];
        assert(r@ =~= seq![
            Workers(0),
            Workers(1),
            Workers(2),
            Workers(4),
            Workers(6),
            Workers(8),
            Workers(10),
            Workers(12),
            Workers(16),
        ]);
        r
    }

    /// How the choice is shown: "Automatic" for 0, else the number.
    pub fn label(&self) -> (r: String)
        ensures
            r@ == if self.0 == 0 {
                "Automatic"@
            } else {
                crate::compression::decimal(self.0 as nat)
            },
    {
        if self.0 == 0 {
            String::from_str("Automatic")
        } else {
            crate::text::decimal_text(self.0 as u64)
        }
    }
}

} // verus!
