//! The models that the gateway offers, and the pool that serves each.

use vstd::prelude::*;
use crate::text::str_eq;

verus! {

/// The subscription tier that a model needs.
#[derive(Debug, Clone, Copy, PartialEq, Eq, Structural)]
pub enum Tier {
    Basic,
    Super,
}

/// The effort that a call of a model costs.
#[derive(Debug, Clone, Copy, PartialEq, Eq, Structural)]
pub enum Cost {
    Low,
    High,
}

/// Number of models on offer.
pub const MODEL_COUNT: usize = 10;

/// One model on offer.
#[derive(Debug)]
pub struct ModelInfo {
    pub model_id: String,
    pub grok_model: String,
    pub model_mode: String,
    pub tier: Tier,
    pub cost: Cost,
    pub display_name: String,
    pub description: String,
    pub is_video: bool,
    pub is_image: bool,
}

/// The mathematical value of a model on offer.
pub struct ModelInfoView {
    pub model_id: Seq<char>,
    pub grok_model: Seq<char>,
    pub model_mode: Seq<char>,
    pub tier: Tier,
    pub cost: Cost,
    pub display_name: Seq<char>,
    pub description: Seq<char>,
    pub is_video: bool,
    pub is_image: bool,
}

impl View for ModelInfo {
    type V = ModelInfoView;

    open spec fn view(&self) -> ModelInfoView {
        ModelInfoView {
            model_id: self.model_id@,
            grok_model: self.grok_model@,
            model_mode: self.model_mode@,
            tier: self.tier,
            cost: self.cost,
            display_name: self.display_name@,
            description: self.description@,
            is_video: self.is_video,
            is_image: self.is_image,
        }
    }
}

impl ModelInfoView {
    /// A text model of the basic tier and of low cost, without description.
    pub open spec fn plain(
        model_id: Seq<char>,
        grok_model: Seq<char>,
        mode: Seq<char>,
        display: Seq<char>,
    ) -> ModelInfoView {
        ModelInfoView {
            model_id,
            grok_model,
            model_mode: mode,
            tier: Tier::Basic,
            cost: Cost::Low,
            display_name: display,
            description: Seq::empty(),
            is_video: false,
            is_image: false,
        }
    }
}

/// The model at a position of the offer.
pub open spec fn spec_model_at(i: int) -> ModelInfoView {
    if i == 0 {
        ModelInfoView::plain("grok-3"@, "grok-3"@, "MODEL_MODE_AUTO"@, "Grok 3"@)
    } else if i == 1 {
        ModelInfoView::plain("grok-3-fast"@, "grok-3"@, "MODEL_MODE_FAST"@, "Grok 3 Fast"@)
    } else if i == 2 {
        ModelInfoView::plain("grok-4"@, "grok-4"@, "MODEL_MODE_AUTO"@, "Grok 4"@)
    } else if i == 3 {
        ModelInfoView::plain(
            "grok-4-mini"@,
            "grok-4-mini-thinking-tahoe"@,
            "MODEL_MODE_GROK_4_MINI_THINKING"@,
            "Grok 4 Mini"@,
        )
    } else if i == 4 {
        ModelInfoView::plain("grok-4-fast"@, "grok-4"@, "MODEL_MODE_FAST"@, "Grok 4 Fast"@)
    } else if i == 5 {
        ModelInfoView {
            tier: Tier::Super,
            cost: Cost::High,
            ..ModelInfoView::plain("grok-4-heavy"@, "grok-4"@, "MODEL_MODE_HEAVY"@, "Grok 4 Heavy"@)
        }
    } else if i == 6 {
        ModelInfoView::plain(
            "grok-4.1"@,
            "grok-4-1-thinking-1129"@,
            "MODEL_MODE_AUTO"@,
            "Grok 4.1"@,
        )
    } else if i == 7 {
        ModelInfoView {
            cost: Cost::High,
            ..ModelInfoView::plain(
                "grok-4.1-thinking"@,
                "grok-4-1-thinking-1129"@,
                "MODEL_MODE_GROK_4_1_THINKING"@,
                "Grok 4.1 Thinking"@,
            )
        }
    } else if i == 8 {
        ModelInfoView {
            cost: Cost::High,
            is_image: true,
            description: "Image generation model"@,
            ..ModelInfoView::plain("grok-imagine-1.0"@, "grok-3"@, "MODEL_MODE_FAST"@, "Grok Image"@)
        }
    } else {
        ModelInfoView {
            cost: Cost::High,
            is_video: true,
            description: "Video generation model"@,
            ..ModelInfoView::plain(
                "grok-imagine-1.0-video"@,
                "grok-3"@,
                "MODEL_MODE_FAST"@,
                "Grok Video"@,
            )
        }
    }
}

/// Whether `i` is the position of the first model on offer with the given identifier.
pub open spec fn spec_model_position(model_id: Seq<char>, i: int) -> bool {
    &&& 0 <= i < MODEL_COUNT
    &&& spec_model_at(i).model_id == model_id
    &&& forall|j: int| 0 <= j < i ==> spec_model_at(j).model_id != model_id
}

/// Whether a model with the given identifier is on offer.
pub open spec fn spec_valid_model(model_id: Seq<char>) -> bool {
    exists|i: int| 0 <= i < MODEL_COUNT && spec_model_at(i).model_id == model_id
}

/// The name of the pool that serves a model: the pool of the super tier
/// for a model on offer that needs it, the basic pool for anything else.
pub open spec fn spec_pool_for_model(model_id: Seq<char>) -> Seq<char> {
    if exists|i: int| spec_model_position(model_id, i) && spec_model_at(i).tier == Tier::Super {
        "ssoSuper"@
    } else {
        "ssoBasic"@
    }
}

impl ModelInfo {
    /// A text model of the basic tier and of low cost, without description.
    pub fn new(model_id: &str, grok_model: &str, mode: &str, display: &str) -> (r: Self)
        ensures
            r@ == ModelInfoView::plain(model_id@, grok_model@, mode@, display@),
    {
        ModelInfo {
            model_id: model_id.to_owned(),
            grok_model: grok_model.to_owned(),
            model_mode: mode.to_owned(),
            tier: Tier::Basic,
            cost: Cost::Low,
            display_name: display.to_owned(),
            description: String::new(),
            is_video: false,
            is_image: false,
        }
    }
}

/// The offer of models.
#[derive(Debug, Clone, Copy)]
pub struct ModelService;

impl ModelService {
    /// The model at a position of the offer.
    pub fn model_at(i: usize) -> (r: ModelInfo)
        requires
            i < MODEL_COUNT,
        ensures
            r@ == spec_model_at(i as int),
    {
        if i == 0 {
            ModelInfo::new("grok-3", "grok-3", "MODEL_MODE_AUTO", "Grok 3")
        } else if i == 1 {
            ModelInfo::new("grok-3-fast", "grok-3", "MODEL_MODE_FAST", "Grok 3 Fast")
        } else if i == 2 {
            ModelInfo::new("grok-4", "grok-4", "MODEL_MODE_AUTO", "Grok 4")
        } else if i == 3 {
            ModelInfo::new(
                "grok-4-mini",
                "grok-4-mini-thinking-tahoe",
                "MODEL_MODE_GROK_4_MINI_THINKING",
                "Grok 4 Mini",
            )
        } else if i == 4 {
            ModelInfo::new("grok-4-fast", "grok-4", "MODEL_MODE_FAST", "Grok 4 Fast")
        } else if i == 5 {
            let mut m = ModelInfo::new("grok-4-heavy", "grok-4", "MODEL_MODE_HEAVY", "Grok 4 Heavy");
            m.tier = Tier::Super;
            m.cost = Cost::High;
            m
        } else if i == 6 {
            ModelInfo::new("grok-4.1", "grok-4-1-thinking-1129", "MODEL_MODE_AUTO", "Grok 4.1")
        } else if i == 7 {
            let mut m = ModelInfo::new(
                "grok-4.1-thinking",
                "grok-4-1-thinking-1129",
                "MODEL_MODE_GROK_4_1_THINKING",
                "Grok 4.1 Thinking",
            );
            m.cost = Cost::High;
            m
        } else if i == 8 {
            let mut m = ModelInfo::new("grok-imagine-1.0", "grok-3", "MODEL_MODE_FAST", "Grok Image");
            m.cost = Cost::High;
            m.is_image = true;
            m.description = "Image generation model".to_owned();
            m
        } else {
            let mut m = ModelInfo::new(
                "grok-imagine-1.0-video",
                "grok-3",
                "MODEL_MODE_FAST",
                "Grok Video",
            );
            m.cost = Cost::High;
            m.is_video = true;
            m.description = "Video generation model".to_owned();
            m
        }
    }

    /// The models on offer, in order.
    pub fn list() -> (r: Vec<ModelInfo>)
        ensures
            r.len() == MODEL_COUNT,
            forall|i: int| 0 <= i < MODEL_COUNT ==> (#[trigger] r[i])@ == spec_model_at(i),
    {
        let mut out: Vec<ModelInfo> = Vec::new();
        let mut i: usize = 0;
        while i < MODEL_COUNT
            invariant
                i <= MODEL_COUNT,
                out.len() == i,
                forall|j: int| 0 <= j < i ==> (#[trigger] out[j])@ == spec_model_at(j),
            decreases MODEL_COUNT - i,
        {
            out.push(ModelService::model_at(i));
            i += 1;
        }
        out
    }

    /// The first model on offer with the given identifier.
    pub fn get(model_id: &str) -> (r: Option<ModelInfo>)
        ensures
            r is Some <==> spec_valid_model(model_id@),
            r matches Some(m) ==> exists|i: int| spec_model_position(model_id@, i) && m@ == spec_model_at(i),
    {
        let mut i: usize = 0;
        while i < MODEL_COUNT
            invariant
                i <= MODEL_COUNT,
                forall|j: int| 0 <= j < i ==> spec_model_at(j).model_id != model_id@,
            decreases MODEL_COUNT - i,
        {
            let m = ModelService::model_at(i);
            if str_eq(m.model_id.as_str(), model_id) {
                assert(spec_model_position(model_id@, i as int));
                return Some(m);
            }
            i += 1;
        }
        None
    }

    /// Whether a model with the given identifier is on offer.
    pub fn valid(model_id: &str) -> (r: bool)
        ensures
            r == spec_valid_model(model_id@),
    {
        ModelService::get(model_id).is_some()
    }

    /// The name of the pool that serves a model.
    pub fn pool_for_model(model_id: &str) -> (r: String)
        ensures
            r@ == spec_pool_for_model(model_id@),
    {
        match ModelService::get(model_id) {
            Some(m) => {
                proof {
                    let i = choose|i: int| spec_model_position(model_id@, i) && m@ == spec_model_at(i);
                    assert forall|j: int| spec_model_position(model_id@, j) implies j == i by {}
                }
                if m.tier == Tier::Super {
                    "ssoSuper".to_owned()
                } else {
                    "ssoBasic".to_owned()
                }
            },
            None => {
                assert forall|j: int| !spec_model_position(model_id@, j) by {}
                "ssoBasic".to_owned()
            },
        }
    }
}

} // verus!
