use vstd::prelude::*;

verus! {

/// The vendor id shared by every supported panel.
pub const ELGATO_VENDOR_ID: u16 = 0x0fd9;

/// Product id of the first 15-key panel.
pub const PID_STREAMDECK_ORIGINAL: u16 = 0x0060;
/// Product id of the second revision of the 15-key panel.
pub const PID_STREAMDECK_ORIGINAL_V2: u16 = 0x006d;
/// Product id of the 6-key panel.
pub const PID_STREAMDECK_MINI: u16 = 0x0063;
/// Product id of the 32-key panel.
pub const PID_STREAMDECK_XL: u16 = 0x006c;
/// Product id of the second revision of the 32-key panel.
pub const PID_STREAMDECK_XL_V2: u16 = 0x008f;
/// Product id of the Mk2 15-key panel.
pub const PID_STREAMDECK_MK2: u16 = 0x0080;
/// Product id of the second revision of the 6-key panel.
pub const PID_STREAMDECK_MINI_MK2: u16 = 0x0090;
/// Product id of the 8-key panel with a small screen and two touch points.
pub const PID_STREAMDECK_NEO: u16 = 0x009a;
/// Product id of the three-pedal foot switch.
pub const PID_STREAMDECK_PEDAL: u16 = 0x0086;
/// Product id of the 8-key panel with four encoders and a touch strip.
pub const PID_STREAMDECK_PLUS: u16 = 0x0084;
/// Product id of the Mk2 panel with scissor keys.
pub const PID_STREAMDECK_MK2_SCISSOR: u16 = 0x00a5;
/// Product id of the 6-key module.
pub const PID_STREAMDECK_MINI_MK2_MODULE: u16 = 0x00b8;

/// The supported panel models.
#[derive(Clone, Copy, Debug, PartialEq, Eq, Hash, Structural)]
pub enum Kind {
    /// First 15-key panel
    Original,
    /// Second revision of the 15-key panel
    OriginalV2,
    /// 6-key panel
    Mini,
    /// 32-key panel
    Xl,
    /// Second revision of the 32-key panel
    XlV2,
    /// Mk2 15-key panel
    Mk2,
    /// Second revision of the 6-key panel
    MiniMk2,
    /// 8-key panel with a screen and two touch points
    Neo,
    /// Foot switch with three pedals
    Pedal,
    /// 8-key panel with four encoders and a touch strip
    Plus,
    /// Mk2 panel with scissor keys
    Mk2Scissor,
    /// 6-key module
    MiniMk2Module,
}

/// The model that a (vendor id, product id) pair names, if any.
pub open spec fn kind_of(vid: u16, pid: u16) -> Option<Kind> {
    if vid != ELGATO_VENDOR_ID {
        None
    } else if pid == PID_STREAMDECK_ORIGINAL {
        Some(Kind::Original)
    } else if pid == PID_STREAMDECK_ORIGINAL_V2 {
        Some(Kind::OriginalV2)
    } else if pid == PID_STREAMDECK_MINI {
        Some(Kind::Mini)
    } else if pid == PID_STREAMDECK_XL {
        Some(Kind::Xl)
    } else if pid == PID_STREAMDECK_XL_V2 {
        Some(Kind::XlV2)
    } else if pid == PID_STREAMDECK_MK2 {
        Some(Kind::Mk2)
    } else if pid == PID_STREAMDECK_MINI_MK2 {
        Some(Kind::MiniMk2)
    } else if pid == PID_STREAMDECK_NEO {
        Some(Kind::Neo)
    } else if pid == PID_STREAMDECK_PEDAL {
        Some(Kind::Pedal)
    } else if pid == PID_STREAMDECK_PLUS {
        Some(Kind::Plus)
    } else if pid == PID_STREAMDECK_MK2_SCISSOR {
        Some(Kind::Mk2Scissor)
    } else if pid == PID_STREAMDECK_MINI_MK2_MODULE {
        Some(Kind::MiniMk2Module)
    } else {
        None
    }
}

impl Kind {
    pub open spec fn spec_product_id(self) -> u16 {
        match self {
            Kind::Original => PID_STREAMDECK_ORIGINAL,
            Kind::OriginalV2 => PID_STREAMDECK_ORIGINAL_V2,
            Kind::Mini => PID_STREAMDECK_MINI,
            Kind::Xl => PID_STREAMDECK_XL,
            Kind::XlV2 => PID_STREAMDECK_XL_V2,
            Kind::Mk2 => PID_STREAMDECK_MK2,
            Kind::MiniMk2 => PID_STREAMDECK_MINI_MK2,
            Kind::Neo => PID_STREAMDECK_NEO,
            Kind::Pedal => PID_STREAMDECK_PEDAL,
            Kind::Plus => PID_STREAMDECK_PLUS,
            Kind::Mk2Scissor => PID_STREAMDECK_MK2_SCISSOR,
            Kind::MiniMk2Module => PID_STREAMDECK_MINI_MK2_MODULE,
        }
    }

    pub open spec fn spec_key_count(self) -> u8 {
        match self {
            Kind::Original | Kind::OriginalV2 | Kind::Mk2 | Kind::Mk2Scissor => 15,
            Kind::Mini | Kind::MiniMk2 | Kind::MiniMk2Module => 6,
            Kind::Xl | Kind::XlV2 => 32,
            Kind::Pedal => 3,
            Kind::Neo | Kind::Plus => 8,
        }
    }

    pub open spec fn spec_row_count(self) -> u8 {
        match self {
            Kind::Original | Kind::OriginalV2 | Kind::Mk2 | Kind::Mk2Scissor => 3,
            Kind::Mini | Kind::MiniMk2 | Kind::MiniMk2Module => 2,
            Kind::Xl | Kind::XlV2 => 4,
            Kind::Pedal => 1,
            Kind::Neo | Kind::Plus => 2,
        }
    }

    pub open spec fn spec_column_count(self) -> u8 {
        match self {
            Kind::Original | Kind::OriginalV2 | Kind::Mk2 | Kind::Mk2Scissor => 5,
            Kind::Mini | Kind::MiniMk2 | Kind::MiniMk2Module => 3,
            Kind::Xl | Kind::XlV2 => 8,
            Kind::Pedal => 3,
            Kind::Neo | Kind::Plus => 4,
        }
    }

    pub open spec fn spec_encoder_count(self) -> u8 {
        match self {
            Kind::Plus => 4,
            _ => 0,
        }
    }

    pub open spec fn spec_touchpoint_count(self) -> u8 {
        match self {
            Kind::Neo => 2,
            _ => 0,
        }
    }

    pub open spec fn spec_lcd_strip_size(self) -> Option<(usize, usize)> {
        match self {
            Kind::Plus => Some((800usize, 100usize)),
            Kind::Neo => Some((248usize, 58usize)),
            _ => None,
        }
    }

    pub open spec fn spec_is_visual(self) -> bool {
        self != Kind::Pedal
    }

    /// True for the models that speak the older report layouts.
    pub open spec fn is_legacy(self) -> bool {
        match self {
            Kind::Original | Kind::Mini | Kind::MiniMk2 | Kind::MiniMk2Module => true,
            _ => false,
        }
    }

    /// Looks a model up by its vendor and product ids.
    pub fn from_vid_pid(vid: u16, pid: u16) -> (r: Option<Kind>)
        ensures
            r == kind_of(vid, pid),
    {
        if vid != ELGATO_VENDOR_ID {
            return None;
        }
        match pid {
            PID_STREAMDECK_ORIGINAL => Some(Kind::Original),
            PID_STREAMDECK_ORIGINAL_V2 => Some(Kind::OriginalV2),
            PID_STREAMDECK_MINI => Some(Kind::Mini),
            PID_STREAMDECK_XL => Some(Kind::Xl),
            PID_STREAMDECK_XL_V2 => Some(Kind::XlV2),
            PID_STREAMDECK_MK2 => Some(Kind::Mk2),
            PID_STREAMDECK_MINI_MK2 => Some(Kind::MiniMk2),
            PID_STREAMDECK_NEO => Some(Kind::Neo),
            PID_STREAMDECK_PEDAL => Some(Kind::Pedal),
            PID_STREAMDECK_PLUS => Some(Kind::Plus),
            PID_STREAMDECK_MK2_SCISSOR => Some(Kind::Mk2Scissor),
            PID_STREAMDECK_MINI_MK2_MODULE => Some(Kind::MiniMk2Module),
            _ => None,
        }
    }

    /// Vendor id of the model.
    pub fn vendor_id(&self) -> (r: u16)
        ensures
            r == ELGATO_VENDOR_ID,
    {
        ELGATO_VENDOR_ID
    }

    /// Product id of the model.
    pub fn product_id(&self) -> (r: u16)
        ensures
            r == self.spec_product_id(),
    {
        match self {
            Kind::Original => PID_STREAMDECK_ORIGINAL,
            Kind::OriginalV2 => PID_STREAMDECK_ORIGINAL_V2,
            Kind::Mini => PID_STREAMDECK_MINI,
            Kind::Xl => PID_STREAMDECK_XL,
            Kind::XlV2 => PID_STREAMDECK_XL_V2,
            Kind::Mk2 => PID_STREAMDECK_MK2,
            Kind::MiniMk2 => PID_STREAMDECK_MINI_MK2,
            Kind::Neo => PID_STREAMDECK_NEO,
            Kind::Pedal => PID_STREAMDECK_PEDAL,
            Kind::Plus => PID_STREAMDECK_PLUS,
            Kind::Mk2Scissor => PID_STREAMDECK_MK2_SCISSOR,
            Kind::MiniMk2Module => PID_STREAMDECK_MINI_MK2_MODULE,
        }
    }

    /// Number of keys on the model.
    pub fn key_count(&self) -> (r: u8)
        ensures
            r == self.spec_key_count(),
    {
        match self {
            Kind::Original | Kind::OriginalV2 | Kind::Mk2 | Kind::Mk2Scissor => 15,
            Kind::Mini | Kind::MiniMk2 | Kind::MiniMk2Module => 6,
            Kind::Xl | Kind::XlV2 => 32,
            Kind::Pedal => 3,
            Kind::Neo | Kind::Plus => 8,
        }
    }

    /// Number of key rows on the model.
    pub fn row_count(&self) -> (r: u8)
        ensures
            r == self.spec_row_count(),
    {
        match self {
            Kind::Original | Kind::OriginalV2 | Kind::Mk2 | Kind::Mk2Scissor => 3,
            Kind::Mini | Kind::MiniMk2 | Kind::MiniMk2Module => 2,
            Kind::Xl | Kind::XlV2 => 4,
            Kind::Pedal => 1,
            Kind::Neo | Kind::Plus => 2,
        }
    }

    /// Number of key columns on the model.
    pub fn column_count(&self) -> (r: u8)
        ensures
            r == self.spec_column_count(),
    {
        match self {
            Kind::Original | Kind::OriginalV2 | Kind::Mk2 | Kind::Mk2Scissor => 5,
            Kind::Mini | Kind::MiniMk2 | Kind::MiniMk2Module => 3,
            Kind::Xl | Kind::XlV2 => 8,
            Kind::Pedal => 3,
            Kind::Neo | Kind::Plus => 4,
        }
    }

    /// Number of encoders (knobs) on the model.
    pub fn encoder_count(&self) -> (r: u8)
        ensures
            r == self.spec_encoder_count(),
    {
        match self {
            Kind::Plus => 4,
            _ => 0,
        }
    }

    /// Number of touch points on the model.
    pub fn touchpoint_count(&self) -> (r: u8)
        ensures
            r == self.spec_touchpoint_count(),
    {
        match self {
            Kind::Neo => 2,
            _ => 0,
        }
    }

    /// Width and height of the screen strip, for the models that have one.
    pub fn lcd_strip_size(&self) -> (r: Option<(usize, usize)>)
        ensures
            r == self.spec_lcd_strip_size(),
    {
        match self {
            Kind::Plus => Some((800, 100)),
            Kind::Neo => Some((248, 58)),
            _ => None,
        }
    }

    /// Whether the model has keys that show images.
    pub fn is_visual(&self) -> (r: bool)
        ensures
            r == self.spec_is_visual(),
    {
        match self {
            Kind::Pedal => false,
            _ => true,
        }
    }
}

/// Returns whether the vendor id is one that supported panels use.
pub fn is_vendor_familiar(vendor: &u16) -> (r: bool)
    ensures
        r == (*vendor == ELGATO_VENDOR_ID),
{
    *vendor == ELGATO_VENDOR_ID
}

/// Looking a pair up succeeds exactly for the ids of a model, and gives that model:
/// no pair names two models, and no model is found under foreign ids.
pub proof fn lemma_lookup_exact(vid: u16, pid: u16)
    ensures
        forall|k: Kind|
            (kind_of(vid, pid) == Some(k)) <==> (vid == ELGATO_VENDOR_ID && pid
                == k.spec_product_id()),
{
}

/// Each model is found under its own ids.
pub proof fn lemma_lookup_total(k: Kind)
    ensures
        kind_of(ELGATO_VENDOR_ID, k.spec_product_id()) == Some(k),
{
}

} // verus!
