use vstd::prelude::*;

verus! {

/// What the watcher needs to know of a listed product.
pub struct Product {
    /// Identifier of the product (for example `BTC-USD`).
    pub product_id: String,
    /// Identifier of the currency the product is quoted in (for example `USD`).
    pub quote_currency_id: String,
}

impl Product {
    /// Makes a product listing.
    pub fn new(product_id: String, quote_currency_id: String) -> (r: Product)
        ensures
            r.product_id == product_id,
            r.quote_currency_id == quote_currency_id,
    {
        Product { product_id, quote_currency_id }
    }
}

/// The identifiers of the products of `s` quoted in `currency`, in order.
pub open spec fn quoted_ids(s: Seq<Product>, currency: Seq<char>) -> Seq<Seq<char>>
    decreases s.len(),
{
    if s.len() == 0 {
        Seq::empty()
    } else {
        let rest = quoted_ids(s.drop_last(), currency);
        if s.last().quote_currency_id@ == currency {
            rest.push(s.last().product_id@)
        } else {
            rest
        }
    }
}

/// The identifiers of the listed products that are quoted in `currency`, in
/// the order in which they are listed.
pub fn products_quoted_in(products: &Vec<Product>, currency: &String) -> (r: Vec<String>)
    ensures
        r@.map_values(|x: String| x@) == quoted_ids(products@, currency@),
{
    let mut names: Vec<String> = Vec::new();
    let mut i: usize = 0;
    while i < products.len()
        invariant
            i <= products@.len(),
            names@.map_values(|x: String| x@) == quoted_ids(products@.take(i as int), currency@),
        decreases products@.len() - i,
    {
        proof {
            assert(products@.take(i + 1).drop_last() =~= products@.take(i as int));
        }
        if products[i].quote_currency_id == *currency {
            let ghost prev = names@;
            names.push(products[i].product_id.clone());
            proof {
                assert(names@.map_values(|x: String| x@) =~= prev.map_values(|x: String| x@).push(
                    products@[i as int].product_id@,
                ));
            }
        }
        i = i + 1;
    }
    proof {
        assert(products@.take(i as int) =~= products@);
    }
    names
}

} // verus!
