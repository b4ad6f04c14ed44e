//! Configuration for embedding models.

use vstd::prelude::*;

use crate::text::{chars_of, eq_str, lowercase, push_str, string_of, to_lowercase};

verus! {

/// Distance metric for vector similarity search.
///
/// The vector store always computes Euclidean (L2) distance; embeddings are
/// L2-normalized before storage, so the three metrics are monotonic
/// transforms of one another.
#[derive(Debug, Clone, Copy, PartialEq, Eq)]
pub enum DistanceMetric {
    /// L2 (Euclidean) distance. 0 = identical.
    L2,
    /// Cosine distance (1 - cosine similarity). 0 = identical, 1 =
    /// orthogonal, 2 = opposite.
    Cosine,
    /// Inner product (dot product); for normalized embeddings, the cosine
    /// similarity: higher = more similar.
    InnerProduct,
}

impl DistanceMetric {
    /// Whether lower values of this metric mean more similar.
    pub open spec fn lower_is_better(self) -> bool {
        !(self is InnerProduct)
    }

    /// The metric a lower-cased name (or alias) names.
    pub open spec fn from_name_spec(k: Seq<char>) -> Option<DistanceMetric> {
        if k == "l2"@ || k == "euclidean"@ {
            Some(DistanceMetric::L2)
        } else if k == "cosine"@ {
            Some(DistanceMetric::Cosine)
        } else if k == "ip"@ || k == "inner"@ || k == "innerproduct"@ || k == "dot"@ {
            Some(DistanceMetric::InnerProduct)
        } else {
            None
        }
    }

    /// Returns true if lower distance values indicate better similarity.
    pub fn is_lower_better(&self) -> (r: bool)
        ensures
            r == self.lower_is_better(),
    {
        match self {
            DistanceMetric::InnerProduct => false,
            _ => true,
        }
    }

    /// Parse a metric name, case-insensitively; the error lists the valid
    /// options.
    pub fn parse(s: &str) -> (r: Result<DistanceMetric, String>)
        ensures
            Self::from_name_spec(lowercase(s@)) matches Some(m) ==> r == Ok::<
                DistanceMetric,
                String,
            >(m),
            Self::from_name_spec(lowercase(s@)) is None ==> (r matches Err(e) && e@
                == "Unknown distance metric: "@ + s@ + ". Valid options: l2, cosine, ip"@),
    {
        let k = to_lowercase(&chars_of(s));
        if eq_str(&k, "l2") || eq_str(&k, "euclidean") {
            Ok(DistanceMetric::L2)
        } else if eq_str(&k, "cosine") {
            Ok(DistanceMetric::Cosine)
        } else if eq_str(&k, "ip") || eq_str(&k, "inner") || eq_str(&k, "innerproduct") || eq_str(
            &k,
            "dot",
        ) {
            Ok(DistanceMetric::InnerProduct)
        } else {
            let mut m: Vec<char> = Vec::new();
            push_str(&mut m, "Unknown distance metric: ");
            push_str(&mut m, s);
            push_str(&mut m, ". Valid options: l2, cosine, ip");
            Err(string_of(&m))
        }
    }
}

impl Default for DistanceMetric {
    /// L2.
    fn default() -> (r: DistanceMetric)
        ensures
            r == DistanceMetric::L2,
    {
        DistanceMetric::L2
    }
}

impl core::str::FromStr for DistanceMetric {
    type Err = String;

    fn from_str(s: &str) -> (r: Result<DistanceMetric, String>)
        ensures
            DistanceMetric::from_name_spec(lowercase(s@)) matches Some(m) ==> r == Ok::<
                DistanceMetric,
                String,
            >(m),
            DistanceMetric::from_name_spec(lowercase(s@)) is None ==> (r matches Err(e) && e@
                == "Unknown distance metric: "@ + s@ + ". Valid options: l2, cosine, ip"@),
    {
        DistanceMetric::parse(s)
    }
}

/// Available embedding models.
#[derive(Debug, Clone, PartialEq, Eq)]
pub enum EmbeddingModel {
    /// all-MiniLM-L6-v2: 384 dimensions, ~80MB model.
    AllMiniLmL6V2,
    /// bge-small-en-v1.5: 384 dimensions, ~130MB model.
    BgeSmallEnV1_5,
}

impl EmbeddingModel {
    /// The model a lower-cased name names.
    pub open spec fn from_name_spec(k: Seq<char>) -> Option<EmbeddingModel> {
        if k == "all-minilm-l6-v2"@ || k == "all_minilm_l6_v2"@ {
            Some(EmbeddingModel::AllMiniLmL6V2)
        } else if k == "bge-small-en-v1.5"@ || k == "bge_small_en_v1_5"@ {
            Some(EmbeddingModel::BgeSmallEnV1_5)
        } else {
            None
        }
    }

    /// The HuggingFace id of a model.
    pub open spec fn model_id_spec(self) -> Seq<char> {
        match self {
            EmbeddingModel::AllMiniLmL6V2 => "sentence-transformers/all-MiniLM-L6-v2"@,
            EmbeddingModel::BgeSmallEnV1_5 => "BAAI/bge-small-en-v1.5"@,
        }
    }

    /// Returns the embedding dimension for this model.
    pub fn dimensions(&self) -> (r: usize)
        ensures
            r == 384,
    {
        match self {
            EmbeddingModel::AllMiniLmL6V2 => 384,
            EmbeddingModel::BgeSmallEnV1_5 => 384,
        }
    }

    /// Returns the HuggingFace model ID.
    pub fn model_id(&self) -> (r: &'static str)
        ensures
            r@ == self.model_id_spec(),
    {
        match self {
            EmbeddingModel::AllMiniLmL6V2 => "sentence-transformers/all-MiniLM-L6-v2",
            EmbeddingModel::BgeSmallEnV1_5 => "BAAI/bge-small-en-v1.5",
        }
    }

    /// Parse a model name, case-insensitively.
    pub fn parse(s: &str) -> (r: Result<EmbeddingModel, String>)
        ensures
            Self::from_name_spec(lowercase(s@)) matches Some(m) ==> r == Ok::<
                EmbeddingModel,
                String,
            >(m),
            Self::from_name_spec(lowercase(s@)) is None ==> (r matches Err(e) && e@
                == "Unknown embedding model: "@ + s@),
    {
        let k = to_lowercase(&chars_of(s));
        if eq_str(&k, "all-minilm-l6-v2") || eq_str(&k, "all_minilm_l6_v2") {
            Ok(EmbeddingModel::AllMiniLmL6V2)
        } else if eq_str(&k, "bge-small-en-v1.5") || eq_str(&k, "bge_small_en_v1_5") {
            Ok(EmbeddingModel::BgeSmallEnV1_5)
        } else {
            let mut m: Vec<char> = Vec::new();
            push_str(&mut m, "Unknown embedding model: ");
            push_str(&mut m, s);
            Err(string_of(&m))
        }
    }
}

impl Default for EmbeddingModel {
    /// all-MiniLM-L6-v2.
    fn default() -> (r: EmbeddingModel)
        ensures
            r == EmbeddingModel::AllMiniLmL6V2,
    {
        EmbeddingModel::AllMiniLmL6V2
    }
}

impl core::str::FromStr for EmbeddingModel {
    type Err = String;

    fn from_str(s: &str) -> (r: Result<EmbeddingModel, String>)
        ensures
            EmbeddingModel::from_name_spec(lowercase(s@)) matches Some(m) ==> r == Ok::<
                EmbeddingModel,
                String,
            >(m),
            EmbeddingModel::from_name_spec(lowercase(s@)) is None ==> (r matches Err(e) && e@
                == "Unknown embedding model: "@ + s@),
    {
        EmbeddingModel::parse(s)
    }
}

} // verus!
