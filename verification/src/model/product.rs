//! The catalogue of products.
use crate::entity::normal_distribute::NormalDistribution;
use crate::fixed::{Ratio, RATIO_ONE, UNIT};
use crate::text::{concat, same_text};
use vstd::prelude::*;

verus! {

/// The kinds of product that the market knows.
#[derive(PartialEq, Eq, Structural, Clone, Copy, Debug)]
pub enum ProductCategory {
    Food,
    Water,
    Clothing,
    Entertainment,
}

/// The category that a name stands for, if it stands for one.
pub open spec fn category_named(name: Seq<char>) -> Option<ProductCategory> {
    if name == "Food"@ {
        Some(ProductCategory::Food)
    } else if name == "Water"@ {
        Some(ProductCategory::Water)
    } else if name == "Clothing"@ {
        Some(ProductCategory::Clothing)
    } else if name == "Entertainment"@ {
        Some(ProductCategory::Entertainment)
    } else {
        None
    }
}

/// The name of a category.
pub open spec fn category_name(category: ProductCategory) -> Seq<char> {
    match category {
        ProductCategory::Food => "Food"@,
        ProductCategory::Water => "Water"@,
        ProductCategory::Clothing => "Clothing"@,
        ProductCategory::Entertainment => "Entertainment"@,
    }
}

impl ProductCategory {
    /// The name of the category.
    pub fn name(&self) -> (n: &'static str)
        ensures
            n@ == category_name(*self),
    {
        match self {
            ProductCategory::Food => "Food",
            ProductCategory::Water => "Water",
            ProductCategory::Clothing => "Clothing",
            ProductCategory::Entertainment => "Entertainment",
        }
    }

    /// The category that `category` names, or `None` for any other text.
    pub fn parse(category: &str) -> (r: Option<ProductCategory>)
        ensures
            r == category_named(category@),
    {
        if same_text(category, "Food") {
            Some(ProductCategory::Food)
        } else if same_text(category, "Water") {
            Some(ProductCategory::Water)
        } else if same_text(category, "Clothing") {
            Some(ProductCategory::Clothing)
        } else if same_text(category, "Entertainment") {
            Some(ProductCategory::Entertainment)
        } else {
            None
        }
    }

    /// The category that `category` names. The text must be one of the four
    /// names; [`ProductCategory::parse`] takes any text.
    pub fn from_str(category: &str) -> (r: ProductCategory)
        requires
            category_named(category@) is Some,
        ensures
            Some(r) == category_named(category@),
    {
        match ProductCategory::parse(category) {
            Some(c) => c,
            None => ProductCategory::Food,
        }
    }
}

/// A product of the catalogue: its identity, its kind, how well unsold
/// units keep from one round to the next, and the distributions from which
/// beliefs and costs are sampled.
#[derive(Clone, Debug)]
pub struct Product {
    id: u64,
    name: String,
    product_category: ProductCategory,
    durability: Ratio,
    original_price_distribution: NormalDistribution,
    original_elastic_distribution: NormalDistribution,
    product_cost_distribution: NormalDistribution,
}

impl Product {
    /// The id, as a specification value.
    pub closed spec fn spec_id(&self) -> u64 {
        self.id
    }

    /// The name, as a specification value.
    pub closed spec fn spec_name(&self) -> Seq<char> {
        self.name@
    }

    /// The category, as a specification value.
    pub closed spec fn spec_product_category(&self) -> ProductCategory {
        self.product_category
    }

    /// The durability, as a specification value.
    pub closed spec fn spec_durability(&self) -> Ratio {
        self.durability
    }

    /// The distribution of prices, as a specification value.
    pub closed spec fn spec_price_distribution(&self) -> NormalDistribution {
        self.original_price_distribution
    }

    /// The distribution of elasticities, as a specification value.
    pub closed spec fn spec_elastic_distribution(&self) -> NormalDistribution {
        self.original_elastic_distribution
    }

    /// The distribution of unit costs, as a specification value.
    pub closed spec fn spec_cost_distribution(&self) -> NormalDistribution {
        self.product_cost_distribution
    }

    /// A product whose three distributions are drawn at random, each with a
    /// mean below one unit. Its units keep fully from round to round. The
    /// distributions are named after the product: its name followed by
    /// `_price_dist`, `_elastic_dist` and `_cost_dist`.
    pub fn new(id: u64, name: String, product_category: ProductCategory) -> (p: Self)
        ensures
            p.spec_id() == id,
            p.spec_name() == name@,
            p.spec_product_category() == product_category,
            p.spec_durability() == RATIO_ONE,
            p.spec_price_distribution().spec_id() == id,
            p.spec_price_distribution().spec_name() == name@ + "_price_dist"@,
            p.spec_price_distribution().spec_mean() < UNIT,
            p.spec_elastic_distribution().spec_id() == id,
            p.spec_elastic_distribution().spec_name() == name@ + "_elastic_dist"@,
            p.spec_elastic_distribution().spec_mean() < UNIT,
            p.spec_cost_distribution().spec_id() == id,
            p.spec_cost_distribution().spec_name() == name@ + "_cost_dist"@,
            p.spec_cost_distribution().spec_mean() < UNIT,
    {
        let original_price_distribution = NormalDistribution::random(
            id,
            concat(name.as_str(), "_price_dist"),
            Some(0),
            Some(UNIT),
        );
        let original_elastic_distribution = NormalDistribution::random(
            id,
            concat(name.as_str(), "_elastic_dist"),
            Some(0),
            Some(UNIT),
        );
        let product_cost_distribution = NormalDistribution::random(
            id,
            concat(name.as_str(), "_cost_dist"),
            Some(0),
            Some(UNIT),
        );
        Product {
            id,
            name,
            product_category,
            durability: RATIO_ONE,
            original_price_distribution,
            original_elastic_distribution,
            product_cost_distribution,
        }
    }

    /// A product with the given parts.
    pub fn from(
        id: u64,
        name: String,
        product_category: ProductCategory,
        durability: Ratio,
        original_price_distribution: NormalDistribution,
        original_elastic_distribution: NormalDistribution,
        product_cost_distribution: NormalDistribution,
    ) -> (p: Self)
        ensures
            p.spec_id() == id,
            p.spec_name() == name@,
            p.spec_product_category() == product_category,
            p.spec_durability() == durability,
            p.spec_price_distribution() == original_price_distribution,
            p.spec_elastic_distribution() == original_elastic_distribution,
            p.spec_cost_distribution() == product_cost_distribution,
    {
        Product {
            id,
            name,
            product_category,
            durability,
            original_price_distribution,
            original_elastic_distribution,
            product_cost_distribution,
        }
    }

    /// The id.
    #[verifier::when_used_as_spec(spec_id)]
    pub fn id(&self) -> (i: u64)
        ensures
            i == self.spec_id(),
    {
        self.id
    }

    /// The name.
    pub fn name(&self) -> (n: &str)
        ensures
            n@ == self.spec_name(),
    {
        self.name.as_str()
    }

    /// The category.
    #[verifier::when_used_as_spec(spec_product_category)]
    pub fn product_category(&self) -> (c: ProductCategory)
        ensures
            c == self.spec_product_category(),
    {
        self.product_category
    }

    /// The share of unsold units that is still good in the next round, in
    /// parts per million.
    #[verifier::when_used_as_spec(spec_durability)]
    pub fn durability(&self) -> (d: Ratio)
        ensures
            d == self.spec_durability(),
    {
        self.durability
    }

    /// The distribution from which agents sample their first price belief.
    pub fn original_price_distribution(&self) -> (d: &NormalDistribution)
        ensures
            *d == self.spec_price_distribution(),
    {
        &self.original_price_distribution
    }

    /// The distribution from which agents sample their elasticity.
    pub fn original_elastic_distribution(&self) -> (d: &NormalDistribution)
        ensures
            *d == self.spec_elastic_distribution(),
    {
        &self.original_elastic_distribution
    }

    /// The distribution from which factories sample their unit cost.
    pub fn product_cost_distribution(&self) -> (d: &NormalDistribution)
        ensures
            *d == self.spec_cost_distribution(),
    {
        &self.product_cost_distribution
    }
}

} // verus!
