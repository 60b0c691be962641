use quote::ToTokens;
use sanctifier::syntax::parse::parse_source;
use sanctifier::syntax::visit::{visit_source_file, Visited};
use syn::spanned::Spanned;
use syn::visit::Visit;

struct ExprOrder {
    seen: Vec<(usize, String)>,
}

impl<'ast> Visit<'ast> for ExprOrder {
    fn visit_expr(&mut self, e: &'ast syn::Expr) {
        self.seen.push((e.span().start().line, e.to_token_stream().to_string()));
        syn::visit::visit_expr(self, e);
    }
}

fn syn_order(source: &str) -> Vec<(usize, String)> {
    let file = syn::parse_str::<syn::File>(source).unwrap();
    let mut v = ExprOrder { seen: Vec::new() };
    v.visit_file(&file);
    v.seen
}

fn model_order(source: &str) -> Vec<(usize, String)> {
    let file = parse_source(source).unwrap();
    visit_source_file(&file)
        .iter()
        .filter_map(|n| match n {
            Visited::Expr { expr, .. } => Some((expr.line, expr.text.clone())),
            _ => None,
        })
        .collect()
}

const CONTRACT: &str = r#"
//! Token contract.
#![doc = "crate docs"]

/// Storage keys.
const KEY: &str = "balance";
static LIMIT: [u8; 2 * 4] = [0; 8];

#[doc = concat!("a", "b")]
pub struct Pool<#[doc = "ty"] T: Into<u64>, const N: usize> {
    /// Reserves.
    reserves: [u128; N * 2],
    extra: Vec<[u8; 3 + 1]>,
    marker: T,
}

pub enum Kind {
    /// First.
    A = 1 + 2,
    B(u32, [u8; 4 * 4]) = 7,
}

impl<T: Into<u64>, const N: usize> Pool<T, N> where T: Clone {
    /// Swap.
    pub fn swap(&mut self, env: Env, amount: u128, fee: [u8; 1 + 1]) -> Result<u128, Error> {
        let total: [u64; 5 - 2] = [1, 2, 3];
        let out = self.reserves[0] * amount / (self.reserves[1] + amount);
        env.storage().persistent().set(&KEY, &out);
        let f = |x: [u8; 9 - 8], y| -> u64 { x[0] as u64 + y };
        let v = Vec::<[u8; 6 * 2]>::with_capacity(out as usize);
        let w = items.iter().map(|i| i * 2).collect::<Vec<[u32; 2 + 2]>>();
        match amount {
            0 => return Err(Error::Zero),
            n if n > 10 + 1 => env.get_ledger_version(),
            1..=5 => helper(n - 1),
            _ => {}
        }
        if let Some(x) = maybe(amount + 3) {
            total[0] += x;
        } else {
            let s = Symbol::new(&env, "bal");
        }
        let p = Point { x: 1 + 1, ..base };
        #[doc = "stmt"]
        helper(p.x * 3);
        Ok(out)
    }
}

trait Check: Into<[u8; 2 * 2]> {
    const SIZE: [u8; 1 + 2] = [0; 3];
    /// Default check.
    fn check(&self, a: u64) -> u64 {
        a * 2 - 1
    }
    fn required(&self, #[doc = "param"] b: [u8; 8 - 1]);
}

mod inner {
    #![doc = "inner"]
    pub fn deep() -> u32 {
        let t = (1 + 2, [3; 4 * 1]);
        t.0 as u32
    }
}
"#;

#[test]
fn model_visits_expressions_in_syn_order() {
    let expected = syn_order(CONTRACT);
    let actual = model_order(CONTRACT);
    assert!(expected.len() > 60);
    assert_eq!(actual, expected);
}

#[test]
fn model_visits_plain_functions_in_syn_order() {
    let source = "fn a(x: u64) -> u64 {\n    let y = x + 1;\n    b(y * 2, c.d(3))\n}\nfn b(p: u64, q: u64) -> u64 { p - q }\n";
    assert_eq!(model_order(source), syn_order(source));
}
