use vstd::prelude::*;

verus! {

/// The default page size.
pub const DEFAULT_TAKE: u32 = 10;

/// The page size asked for, or the default.
pub open spec fn page_take(take: Option<u32>) -> nat {
    match take {
        Some(t) => t as nat,
        None => DEFAULT_TAKE as nat,
    }
}

/// How many rows come before the page asked for: pages are numbered from
/// 1, and page 0 or no page means the first.
pub open spec fn page_offset(take: Option<u32>, page_no: Option<u32>) -> nat {
    match page_no {
        Some(p) => if p > 0 { ((p - 1) * page_take(take)) as nat } else { 0 },
        None => 0,
    }
}

/// The page size and offset of a request.
pub fn page_window(take: Option<u32>, page_no: Option<u32>) -> (r: (u64, u64))
    ensures
        r.0 as nat == page_take(take),
        r.1 as nat == page_offset(take, page_no),
{
    let t: u32 = match take {
        Some(t) => t,
        None => DEFAULT_TAKE,
    };
    let offset: u64 = match page_no {
        Some(p) => {
            if p > 0 {
                let a: u64 = (p - 1) as u64;
                let b: u64 = t as u64;
                assert(a * b <= 0xffff_ffff * 0xffff_ffff) by (nonlinear_arith)
                    requires a <= 0xffff_ffff, b <= 0xffff_ffff;
                a * b
            } else {
                0
            }
        },
        None => 0,
    };
    (t as u64, offset)
}

} // verus!
