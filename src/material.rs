use vstd::prelude::*;

verus! {

/// The candidate materials of a search. Their numeric properties form a
/// read-only catalog keyed by this tag.
#[derive(Clone, Copy, Debug, PartialEq, Eq, Structural)]
pub enum Material {
    Steel1018,
    StainlessSteel174PH,
    SteelSae4340,
    Aluminum7075T6,
    Aluminum2024T4,
    Aluminum6061T6,
    TitaniumAlloyTi6AL4V,
}

/// Every material, in catalog order.
pub open spec fn catalog_order() -> Seq<Material> {
    seq![
        Material::Steel1018,
        Material::StainlessSteel174PH,
        Material::SteelSae4340,
        Material::Aluminum7075T6,
        Material::Aluminum2024T4,
        Material::Aluminum6061T6,
        Material::TitaniumAlloyTi6AL4V,
    ]
}

/// The human-readable name of a material.
pub open spec fn material_label(m: Material) -> Seq<char> {
    match m {
        Material::Steel1018 => "Steel 1018"@,
        Material::StainlessSteel174PH => "Stainless Steel 17-PH"@,
        Material::SteelSae4340 => "Steel SAE 4340"@,
        Material::Aluminum7075T6 => "Aluminum 7075-T6"@,
        Material::Aluminum2024T4 => "Aluminum 2024-T4"@,
        Material::Aluminum6061T6 => "Aluminum 6061-T6"@,
        Material::TitaniumAlloyTi6AL4V => "Titanum Alloy Ti-6Al-4V"@,
    }
}

impl Material {
    /// Every material once, in catalog order.
    pub fn all() -> (r: Vec<Material>)
        ensures
            r@ == catalog_order(),
            r.len() == 7,
            forall|m: Material| r@.contains(m),
            forall|i: int, j: int| 0 <= i < j < r.len() ==> r[i] != r[j],
    {
        let r = vec![
            Material::Steel1018,
            Material::StainlessSteel174PH,
            Material::SteelSae4340,
            Material::Aluminum7075T6,
            Material::Aluminum2024T4,
            Material::Aluminum6061T6,
            Material::TitaniumAlloyTi6AL4V,
        ];
        assert(r@ =~= catalog_order());
        assert forall|m: Material| r@.contains(m) by {
            match m {
                Material::Steel1018 => assert(r@[0] == m),
                Material::StainlessSteel174PH => assert(r@[1] == m),
                Material::SteelSae4340 => assert(r@[2] == m),
                Material::Aluminum7075T6 => assert(r@[3] == m),
                Material::Aluminum2024T4 => assert(r@[4] == m),
                Material::Aluminum6061T6 => assert(r@[5] == m),
                Material::TitaniumAlloyTi6AL4V => assert(r@[6] == m),
            }
        }
        r
    }

    /// The human-readable name of this material.
    pub fn label(self) -> (r: &'static str)
        ensures
            r@ == material_label(self),
    {
        match self {
            Material::Steel1018 => "Steel 1018",
            Material::StainlessSteel174PH => "Stainless Steel 17-PH",
            Material::SteelSae4340 => "Steel SAE 4340",
            Material::Aluminum7075T6 => "Aluminum 7075-T6",
            Material::Aluminum2024T4 => "Aluminum 2024-T4",
            Material::Aluminum6061T6 => "Aluminum 6061-T6",
            Material::TitaniumAlloyTi6AL4V => "Titanum Alloy Ti-6Al-4V",
        }
    }
}

} // verus!
