//! Names of Vulkan formats and format-feature flags, as the Vulkan bindings used by
//! the renderer print them (`Debug`), for messages.
use vstd::prelude::*;
use vstd::string::StringExecFns;

use crate::text::{decimal, push_decimal};

verus! {

/// The name of the format with code `code`; `Unknown(code)` for a code without one.
pub open spec fn format_name(code: u32) -> Seq<char> {
    match code {
        0 => "Undefined"@,
        1 => "R4G4_UNorm_Pack8"@,
        2 => "R4G4B4A4_UNorm_Pack16"@,
        3 => "B4G4R4A4_UNorm_Pack16"@,
        4 => "R5G6B5_UNorm_Pack16"@,
        5 => "B5G6R5_UNorm_Pack16"@,
        6 => "R5G5B5A1_UNorm_Pack16"@,
        7 => "B5G5R5A1_UNorm_Pack16"@,
        8 => "A1R5G5B5_UNorm_Pack16"@,
        9 => "R8_UNorm"@,
        10 => "R8_SNorm"@,
        11 => "R8_UScaled"@,
        12 => "R8_SScaled"@,
        13 => "R8_UInt"@,
        14 => "R8_SInt"@,
        15 => "R8_sRGB"@,
        16 => "R8G8_UNorm"@,
        17 => "R8G8_SNorm"@,
        18 => "R8G8_UScaled"@,
        19 => "R8G8_SScaled"@,
        20 => "R8G8_UInt"@,
        21 => "R8G8_SInt"@,
        22 => "R8G8_sRGB"@,
        23 => "R8G8B8_UNorm"@,
        24 => "R8G8B8_SNorm"@,
        25 => "R8G8B8_UScaled"@,
        26 => "R8G8B8_SScaled"@,
        27 => "R8G8B8_UInt"@,
        28 => "R8G8B8_SInt"@,
        29 => "R8G8B8_sRGB"@,
        30 => "B8G8R8_UNorm"@,
        31 => "B8G8R8_SNorm"@,
        32 => "B8G8R8_UScaled"@,
        33 => "B8G8R8_SScaled"@,
        34 => "B8G8R8_UInt"@,
        35 => "B8G8R8_SInt"@,
        36 => "B8G8R8_sRGB"@,
        37 => "R8G8B8A8_UNorm"@,
        38 => "R8G8B8A8_SNorm"@,
        39 => "R8G8B8A8_UScaled"@,
        40 => "R8G8B8A8_SScaled"@,
        41 => "R8G8B8A8_UInt"@,
        42 => "R8G8B8A8_SInt"@,
        43 => "R8G8B8A8_sRGB"@,
        44 => "B8G8R8A8_UNorm"@,
        45 => "B8G8R8A8_SNorm"@,
        46 => "B8G8R8A8_UScaled"@,
        47 => "B8G8R8A8_SScaled"@,
        48 => "B8G8R8A8_UInt"@,
        49 => "B8G8R8A8_SInt"@,
        50 => "B8G8R8A8_sRGB"@,
        51 => "A8B8G8R8_UNorm_Pack32"@,
        52 => "A8B8G8R8_SNorm_Pack32"@,
        53 => "A8B8G8R8_UScaled_Pack32"@,
        54 => "A8B8G8R8_SScaled_Pack32"@,
        55 => "A8B8G8R8_UInt_Pack32"@,
        56 => "A8B8G8R8_SInt_Pack32"@,
        57 => "A8B8G8R8_sRGB_Pack32"@,
        58 => "A2R10G10B10_UNorm_Pack32"@,
        59 => "A2R10G10B10_SNorm_Pack32"@,
        60 => "A2R10G10B10_UScaled_Pack32"@,
        61 => "A2R10G10B10_SScaled_Pack32"@,
        62 => "A2R10G10B10_UInt_Pack32"@,
        63 => "A2R10G10B10_SInt_Pack32"@,
        64 => "A2B10G10R10_UNorm_Pack32"@,
        65 => "A2B10G10R10_SNorm_Pack32"@,
        66 => "A2B10G10R10_UScaled_Pack32"@,
        67 => "A2B10G10R10_SScaled_Pack32"@,
        68 => "A2B10G10R10_UInt_Pack32"@,
        69 => "A2B10G10R10_SInt_Pack32"@,
        70 => "R16_UNorm"@,
        71 => "R16_SNorm"@,
        72 => "R16_UScaled"@,
        73 => "R16_SScaled"@,
        74 => "R16_UInt"@,
        75 => "R16_SInt"@,
        76 => "R16_SFloat"@,
        77 => "R16G16_UNorm"@,
        78 => "R16G16_SNorm"@,
        79 => "R16G16_UScaled"@,
        80 => "R16G16_SScaled"@,
        81 => "R16G16_UInt"@,
        82 => "R16G16_SInt"@,
        83 => "R16G16_SFloat"@,
        84 => "R16G16B16_UNorm"@,
        85 => "R16G16B16_SNorm"@,
        86 => "R16G16B16_UScaled"@,
        87 => "R16G16B16_SScaled"@,
        88 => "R16G16B16_UInt"@,
        89 => "R16G16B16_SInt"@,
        90 => "R16G16B16_SFloat"@,
        91 => "R16G16B16A16_UNorm"@,
        92 => "R16G16B16A16_SNorm"@,
        93 => "R16G16B16A16_UScaled"@,
        94 => "R16G16B16A16_SScaled"@,
        95 => "R16G16B16A16_UInt"@,
        96 => "R16G16B16A16_SInt"@,
        97 => "R16G16B16A16_SFloat"@,
        98 => "R32_UInt"@,
        99 => "R32_SInt"@,
        100 => "R32_SFloat"@,
        101 => "R32G32_UInt"@,
        102 => "R32G32_SInt"@,
        103 => "R32G32_SFloat"@,
        104 => "R32G32B32_UInt"@,
        105 => "R32G32B32_SInt"@,
        106 => "R32G32B32_SFloat"@,
        107 => "R32G32B32A32_UInt"@,
        108 => "R32G32B32A32_SInt"@,
        109 => "R32G32B32A32_SFloat"@,
        110 => "R64_UInt"@,
        111 => "R64_SInt"@,
        112 => "R64_SFloat"@,
        113 => "R64G64_UInt"@,
        114 => "R64G64_SInt"@,
        115 => "R64G64_SFloat"@,
        116 => "R64G64B64_UInt"@,
        117 => "R64G64B64_SInt"@,
        118 => "R64G64B64_SFloat"@,
        119 => "R64G64B64A64_UInt"@,
        120 => "R64G64B64A64_SInt"@,
        121 => "R64G64B64A64_SFloat"@,
        122 => "B10G11R11_UFloat_Pack32"@,
        123 => "E5B9G9R9_UFloat_Pack32"@,
        124 => "D16_UNorm"@,
        125 => "X8_D24_UNorm_Pack32"@,
        126 => "D32_SFloat"@,
        127 => "S8_UInt"@,
        128 => "D16_UNorm_S8_UInt"@,
        129 => "D24_UNorm_S8_UInt"@,
        130 => "D32_SFloat_S8_UInt"@,
        131 => "BC1_RGB_UNorm_Block"@,
        132 => "BC1_RGB_sRGB_Block"@,
        133 => "BC1_RGBA_UNorm_Block"@,
        134 => "BC1_RGBA_sRGB_Block"@,
        135 => "BC2_UNorm_Block"@,
        136 => "BC2_sRGB_Block"@,
        137 => "BC3_UNorm_Block"@,
        138 => "BC3_sRGB_Block"@,
        139 => "BC4_UNorm_Block"@,
        140 => "BC4_SNorm_Block"@,
        141 => "BC5_UNorm_Block"@,
        142 => "BC5_SNorm_Block"@,
        143 => "BC6H_UFloat_Block"@,
        144 => "BC6H_SFloat_Block"@,
        145 => "BC7_UNorm_Block"@,
        146 => "BC7_sRGB_Block"@,
        147 => "ETC2_R8G8B8_UNorm_Block"@,
        148 => "ETC2_R8G8B8_sRGB_Block"@,
        149 => "ETC2_R8G8B8A1_UNorm_Block"@,
        150 => "ETC2_R8G8B8A1_sRGB_Block"@,
        151 => "ETC2_R8G8B8A8_UNorm_Block"@,
        152 => "ETC2_R8G8B8A8_sRGB_Block"@,
        153 => "EAC_R11_UNorm_Block"@,
        154 => "EAC_R11_SNorm_Block"@,
        155 => "EAC_R11G11_UNorm_Block"@,
        156 => "EAC_R11G11_SNorm_Block"@,
        157 => "ASTC_4x4_UNorm_Block"@,
        158 => "ASTC_4x4_sRGB_Block"@,
        159 => "ASTC_5x4_UNorm_Block"@,
        160 => "ASTC_5x4_sRGB_Block"@,
        161 => "ASTC_5x5_UNorm_Block"@,
        162 => "ASTC_5x5_sRGB_Block"@,
        163 => "ASTC_6x5_UNorm_Block"@,
        164 => "ASTC_6x5_sRGB_Block"@,
        165 => "ASTC_6x6_UNorm_Block"@,
        166 => "ASTC_6x6_sRGB_Block"@,
        167 => "ASTC_8x5_UNorm_Block"@,
        168 => "ASTC_8x5_sRGB_Block"@,
        169 => "ASTC_8x6_UNorm_Block"@,
        170 => "ASTC_8x6_sRGB_Block"@,
        171 => "ASTC_8x8_UNorm_Block"@,
        172 => "ASTC_8x8_sRGB_Block"@,
        173 => "ASTC_10x5_UNorm_Block"@,
        174 => "ASTC_10x5_sRGB_Block"@,
        175 => "ASTC_10x6_UNorm_Block"@,
        176 => "ASTC_10x6_sRGB_Block"@,
        177 => "ASTC_10x8_UNorm_Block"@,
        178 => "ASTC_10x8_sRGB_Block"@,
        179 => "ASTC_10x10_UNorm_Block"@,
        180 => "ASTC_10x10_sRGB_Block"@,
        181 => "ASTC_12x10_UNorm_Block"@,
        182 => "ASTC_12x10_sRGB_Block"@,
        183 => "ASTC_12x12_UNorm_Block"@,
        184 => "ASTC_12x12_sRGB_Block"@,
        1000054000 => "PVRTC1_2BPP_UNorm_Block_Img"@,
        1000054001 => "PVRTC1_4BPP_UNorm_Block_Img"@,
        1000054002 => "PVRTC2_2BPP_UNorm_Block_Img"@,
        1000054003 => "PVRTC2_4BPP_UNorm_Block_Img"@,
        1000054004 => "PVRTC1_2BPP_sRGB_Block_Img"@,
        1000054005 => "PVRTC1_4BPP_sRGB_Block_Img"@,
        1000054006 => "PVRTC2_2BPP_sRGB_Block_Img"@,
        1000054007 => "PVRTC2_4BPP_sRGB_Block_Img"@,
        _ => "Unknown("@ + decimal(code as nat) + ")"@,
    }
}

/// The name of the format with code `code` (see `format_name`).
pub fn format_name_string(code: u32) -> (r: String)
    ensures
        r@ == format_name(code),
{
    match code {
        0 => "Undefined".to_owned(),
        1 => "R4G4_UNorm_Pack8".to_owned(),
        2 => "R4G4B4A4_UNorm_Pack16".to_owned(),
        3 => "B4G4R4A4_UNorm_Pack16".to_owned(),
        4 => "R5G6B5_UNorm_Pack16".to_owned(),
        5 => "B5G6R5_UNorm_Pack16".to_owned(),
        6 => "R5G5B5A1_UNorm_Pack16".to_owned(),
        7 => "B5G5R5A1_UNorm_Pack16".to_owned(),
        8 => "A1R5G5B5_UNorm_Pack16".to_owned(),
        9 => "R8_UNorm".to_owned(),
        10 => "R8_SNorm".to_owned(),
        11 => "R8_UScaled".to_owned(),
        12 => "R8_SScaled".to_owned(),
        13 => "R8_UInt".to_owned(),
        14 => "R8_SInt".to_owned(),
        15 => "R8_sRGB".to_owned(),
        16 => "R8G8_UNorm".to_owned(),
        17 => "R8G8_SNorm".to_owned(),
        18 => "R8G8_UScaled".to_owned(),
        19 => "R8G8_SScaled".to_owned(),
        20 => "R8G8_UInt".to_owned(),
        21 => "R8G8_SInt".to_owned(),
        22 => "R8G8_sRGB".to_owned(),
        23 => "R8G8B8_UNorm".to_owned(),
        24 => "R8G8B8_SNorm".to_owned(),
        25 => "R8G8B8_UScaled".to_owned(),
        26 => "R8G8B8_SScaled".to_owned(),
        27 => "R8G8B8_UInt".to_owned(),
        28 => "R8G8B8_SInt".to_owned(),
        29 => "R8G8B8_sRGB".to_owned(),
        30 => "B8G8R8_UNorm".to_owned(),
        31 => "B8G8R8_SNorm".to_owned(),
        32 => "B8G8R8_UScaled".to_owned(),
        33 => "B8G8R8_SScaled".to_owned(),
        34 => "B8G8R8_UInt".to_owned(),
        35 => "B8G8R8_SInt".to_owned(),
        36 => "B8G8R8_sRGB".to_owned(),
        37 => "R8G8B8A8_UNorm".to_owned(),
        38 => "R8G8B8A8_SNorm".to_owned(),
        39 => "R8G8B8A8_UScaled".to_owned(),
        40 => "R8G8B8A8_SScaled".to_owned(),
        41 => "R8G8B8A8_UInt".to_owned(),
        42 => "R8G8B8A8_SInt".to_owned(),
        43 => "R8G8B8A8_sRGB".to_owned(),
        44 => "B8G8R8A8_UNorm".to_owned(),
        45 => "B8G8R8A8_SNorm".to_owned(),
        46 => "B8G8R8A8_UScaled".to_owned(),
        47 => "B8G8R8A8_SScaled".to_owned(),
        48 => "B8G8R8A8_UInt".to_owned(),
        49 => "B8G8R8A8_SInt".to_owned(),
        50 => "B8G8R8A8_sRGB".to_owned(),
        51 => "A8B8G8R8_UNorm_Pack32".to_owned(),
        52 => "A8B8G8R8_SNorm_Pack32".to_owned(),
        53 => "A8B8G8R8_UScaled_Pack32".to_owned(),
        54 => "A8B8G8R8_SScaled_Pack32".to_owned(),
        55 => "A8B8G8R8_UInt_Pack32".to_owned(),
        56 => "A8B8G8R8_SInt_Pack32".to_owned(),
        57 => "A8B8G8R8_sRGB_Pack32".to_owned(),
        58 => "A2R10G10B10_UNorm_Pack32".to_owned(),
        59 => "A2R10G10B10_SNorm_Pack32".to_owned(),
        60 => "A2R10G10B10_UScaled_Pack32".to_owned(),
        61 => "A2R10G10B10_SScaled_Pack32".to_owned(),
        62 => "A2R10G10B10_UInt_Pack32".to_owned(),
        63 => "A2R10G10B10_SInt_Pack32".to_owned(),
        64 => "A2B10G10R10_UNorm_Pack32".to_owned(),
        65 => "A2B10G10R10_SNorm_Pack32".to_owned(),
        66 => "A2B10G10R10_UScaled_Pack32".to_owned(),
        67 => "A2B10G10R10_SScaled_Pack32".to_owned(),
        68 => "A2B10G10R10_UInt_Pack32".to_owned(),
        69 => "A2B10G10R10_SInt_Pack32".to_owned(),
        70 => "R16_UNorm".to_owned(),
        71 => "R16_SNorm".to_owned(),
        72 => "R16_UScaled".to_owned(),
        73 => "R16_SScaled".to_owned(),
        74 => "R16_UInt".to_owned(),
        75 => "R16_SInt".to_owned(),
        76 => "R16_SFloat".to_owned(),
        77 => "R16G16_UNorm".to_owned(),
        78 => "R16G16_SNorm".to_owned(),
        79 => "R16G16_UScaled".to_owned(),
        80 => "R16G16_SScaled".to_owned(),
        81 => "R16G16_UInt".to_owned(),
        82 => "R16G16_SInt".to_owned(),
        83 => "R16G16_SFloat".to_owned(),
        84 => "R16G16B16_UNorm".to_owned(),
        85 => "R16G16B16_SNorm".to_owned(),
        86 => "R16G16B16_UScaled".to_owned(),
        87 => "R16G16B16_SScaled".to_owned(),
        88 => "R16G16B16_UInt".to_owned(),
        89 => "R16G16B16_SInt".to_owned(),
        90 => "R16G16B16_SFloat".to_owned(),
        91 => "R16G16B16A16_UNorm".to_owned(),
        92 => "R16G16B16A16_SNorm".to_owned(),
        93 => "R16G16B16A16_UScaled".to_owned(),
        94 => "R16G16B16A16_SScaled".to_owned(),
        95 => "R16G16B16A16_UInt".to_owned(),
        96 => "R16G16B16A16_SInt".to_owned(),
        97 => "R16G16B16A16_SFloat".to_owned(),
        98 => "R32_UInt".to_owned(),
        99 => "R32_SInt".to_owned(),
        100 => "R32_SFloat".to_owned(),
        101 => "R32G32_UInt".to_owned(),
        102 => "R32G32_SInt".to_owned(),
        103 => "R32G32_SFloat".to_owned(),
        104 => "R32G32B32_UInt".to_owned(),
        105 => "R32G32B32_SInt".to_owned(),
        106 => "R32G32B32_SFloat".to_owned(),
        107 => "R32G32B32A32_UInt".to_owned(),
        108 => "R32G32B32A32_SInt".to_owned(),
        109 => "R32G32B32A32_SFloat".to_owned(),
        110 => "R64_UInt".to_owned(),
        111 => "R64_SInt".to_owned(),
        112 => "R64_SFloat".to_owned(),
        113 => "R64G64_UInt".to_owned(),
        114 => "R64G64_SInt".to_owned(),
        115 => "R64G64_SFloat".to_owned(),
        116 => "R64G64B64_UInt".to_owned(),
        117 => "R64G64B64_SInt".to_owned(),
        118 => "R64G64B64_SFloat".to_owned(),
        119 => "R64G64B64A64_UInt".to_owned(),
        120 => "R64G64B64A64_SInt".to_owned(),
        121 => "R64G64B64A64_SFloat".to_owned(),
        122 => "B10G11R11_UFloat_Pack32".to_owned(),
        123 => "E5B9G9R9_UFloat_Pack32".to_owned(),
        124 => "D16_UNorm".to_owned(),
        125 => "X8_D24_UNorm_Pack32".to_owned(),
        126 => "D32_SFloat".to_owned(),
        127 => "S8_UInt".to_owned(),
        128 => "D16_UNorm_S8_UInt".to_owned(),
        129 => "D24_UNorm_S8_UInt".to_owned(),
        130 => "D32_SFloat_S8_UInt".to_owned(),
        131 => "BC1_RGB_UNorm_Block".to_owned(),
        132 => "BC1_RGB_sRGB_Block".to_owned(),
        133 => "BC1_RGBA_UNorm_Block".to_owned(),
        134 => "BC1_RGBA_sRGB_Block".to_owned(),
        135 => "BC2_UNorm_Block".to_owned(),
        136 => "BC2_sRGB_Block".to_owned(),
        137 => "BC3_UNorm_Block".to_owned(),
        138 => "BC3_sRGB_Block".to_owned(),
        139 => "BC4_UNorm_Block".to_owned(),
        140 => "BC4_SNorm_Block".to_owned(),
        141 => "BC5_UNorm_Block".to_owned(),
        142 => "BC5_SNorm_Block".to_owned(),
        143 => "BC6H_UFloat_Block".to_owned(),
        144 => "BC6H_SFloat_Block".to_owned(),
        145 => "BC7_UNorm_Block".to_owned(),
        146 => "BC7_sRGB_Block".to_owned(),
        147 => "ETC2_R8G8B8_UNorm_Block".to_owned(),
        148 => "ETC2_R8G8B8_sRGB_Block".to_owned(),
        149 => "ETC2_R8G8B8A1_UNorm_Block".to_owned(),
        150 => "ETC2_R8G8B8A1_sRGB_Block".to_owned(),
        151 => "ETC2_R8G8B8A8_UNorm_Block".to_owned(),
        152 => "ETC2_R8G8B8A8_sRGB_Block".to_owned(),
        153 => "EAC_R11_UNorm_Block".to_owned(),
        154 => "EAC_R11_SNorm_Block".to_owned(),
        155 => "EAC_R11G11_UNorm_Block".to_owned(),
        156 => "EAC_R11G11_SNorm_Block".to_owned(),
        157 => "ASTC_4x4_UNorm_Block".to_owned(),
        158 => "ASTC_4x4_sRGB_Block".to_owned(),
        159 => "ASTC_5x4_UNorm_Block".to_owned(),
        160 => "ASTC_5x4_sRGB_Block".to_owned(),
        161 => "ASTC_5x5_UNorm_Block".to_owned(),
        162 => "ASTC_5x5_sRGB_Block".to_owned(),
        163 => "ASTC_6x5_UNorm_Block".to_owned(),
        164 => "ASTC_6x5_sRGB_Block".to_owned(),
        165 => "ASTC_6x6_UNorm_Block".to_owned(),
        166 => "ASTC_6x6_sRGB_Block".to_owned(),
        167 => "ASTC_8x5_UNorm_Block".to_owned(),
        168 => "ASTC_8x5_sRGB_Block".to_owned(),
        169 => "ASTC_8x6_UNorm_Block".to_owned(),
        170 => "ASTC_8x6_sRGB_Block".to_owned(),
        171 => "ASTC_8x8_UNorm_Block".to_owned(),
        172 => "ASTC_8x8_sRGB_Block".to_owned(),
        173 => "ASTC_10x5_UNorm_Block".to_owned(),
        174 => "ASTC_10x5_sRGB_Block".to_owned(),
        175 => "ASTC_10x6_UNorm_Block".to_owned(),
        176 => "ASTC_10x6_sRGB_Block".to_owned(),
        177 => "ASTC_10x8_UNorm_Block".to_owned(),
        178 => "ASTC_10x8_sRGB_Block".to_owned(),
        179 => "ASTC_10x10_UNorm_Block".to_owned(),
        180 => "ASTC_10x10_sRGB_Block".to_owned(),
        181 => "ASTC_12x10_UNorm_Block".to_owned(),
        182 => "ASTC_12x10_sRGB_Block".to_owned(),
        183 => "ASTC_12x12_UNorm_Block".to_owned(),
        184 => "ASTC_12x12_sRGB_Block".to_owned(),
        1000054000 => "PVRTC1_2BPP_UNorm_Block_Img".to_owned(),
        1000054001 => "PVRTC1_4BPP_UNorm_Block_Img".to_owned(),
        1000054002 => "PVRTC2_2BPP_UNorm_Block_Img".to_owned(),
        1000054003 => "PVRTC2_4BPP_UNorm_Block_Img".to_owned(),
        1000054004 => "PVRTC1_2BPP_sRGB_Block_Img".to_owned(),
        1000054005 => "PVRTC1_4BPP_sRGB_Block_Img".to_owned(),
        1000054006 => "PVRTC2_2BPP_sRGB_Block_Img".to_owned(),
        1000054007 => "PVRTC2_4BPP_sRGB_Block_Img".to_owned(),
        _ => {
            let mut s = "Unknown(".to_owned();
            push_decimal(&mut s, code as u64);
            s.append(")");
            s
        },
    }
}

/// The `k`-th entry of the flag table, in declaration order: the all-bits mask
/// `MAX_ENUM`, the named flags, then the leftover top bit.
pub open spec fn flag_name(k: int) -> Seq<char> {
    if k == 0 { "MAX_ENUM"@ } else if k == 1 { "SAMPLED_IMAGE"@ } else if k == 2 { "STORAGE_IMAGE"@ } else if k == 3 { "STORAGE_IMAGE_ATOMIC"@ } else if k == 4 { "UNIFORM_TEXEL_BUFFER"@ } else if k == 5 { "STORAGE_TEXEL_BUFFER"@ } else if k == 6 { "STORAGE_TEXEL_BUFFER_ATOMIC"@ } else if k == 7 { "VERTEX_BUFFER"@ } else if k == 8 { "COLOR_ATTACHMENT"@ } else if k == 9 { "COLOR_ATTACHMENT_BLEND"@ } else if k == 10 { "DEPTH_STENCIL_ATTACHMENT"@ } else if k == 11 { "BLIT_SRC"@ } else if k == 12 { "BLIT_DST"@ } else if k == 13 { "SAMPLED_IMAGE_FILTER_LINEAR"@ } else if k == 14 { "SAMPLED_IMAGE_FILTER_CUBIC_BIT"@ } else { "0x80000000"@ }
}

/// Whether the `k`-th entry of the flag table is printed for the mask `bits` (a
/// named flag when its bit is set; `MAX_ENUM` when all of the low 31 bits are set).
pub open spec fn flag_set(bits: u32, k: int) -> bool {
    if k == 0 { bits & 0x7fff_ffff == 0x7fff_ffff } else if k == 1 { bits & 0x1 != 0 } else if k == 2 { bits & 0x2 != 0 } else if k == 3 { bits & 0x4 != 0 } else if k == 4 { bits & 0x8 != 0 } else if k == 5 { bits & 0x10 != 0 } else if k == 6 { bits & 0x20 != 0 } else if k == 7 { bits & 0x40 != 0 } else if k == 8 { bits & 0x80 != 0 } else if k == 9 { bits & 0x100 != 0 } else if k == 10 { bits & 0x200 != 0 } else if k == 11 { bits & 0x400 != 0 } else if k == 12 { bits & 0x800 != 0 } else if k == 13 { bits & 0x1000 != 0 } else if k == 14 { bits & 0x2000 != 0 } else { bits & 0x8000_0000 != 0 }
}

/// Number of entries in the flag table.
pub const FLAG_TABLE_LEN: usize = 16;

/// The names printed for the first `k` entries of the flag table.
pub open spec fn parts_upto(bits: u32, k: int) -> Seq<Seq<char>>
    decreases k,
{
    if k <= 0 {
        Seq::empty()
    } else {
        parts_upto(bits, k - 1) + if flag_set(bits, k - 1) { seq![flag_name(k - 1)] } else { Seq::empty() }
    }
}

/// The names of the flags set in a format-feature mask, in declaration order.
pub open spec fn feature_parts(bits: u32) -> Seq<Seq<char>> {
    parts_upto(bits, FLAG_TABLE_LEN as int)
}

fn flag_at(bits: u32, k: usize) -> (r: (bool, &'static str))
    requires
        k < FLAG_TABLE_LEN,
    ensures
        r.0 == flag_set(bits, k as int),
        r.1@ == flag_name(k as int),
{
    if k == 0 {
        (bits & 0x7fff_ffff == 0x7fff_ffff, "MAX_ENUM")
    } else if k == 1 {
        (bits & 0x1 != 0, "SAMPLED_IMAGE")
    } else if k == 2 {
        (bits & 0x2 != 0, "STORAGE_IMAGE")
    } else if k == 3 {
        (bits & 0x4 != 0, "STORAGE_IMAGE_ATOMIC")
    } else if k == 4 {
        (bits & 0x8 != 0, "UNIFORM_TEXEL_BUFFER")
    } else if k == 5 {
        (bits & 0x10 != 0, "STORAGE_TEXEL_BUFFER")
    } else if k == 6 {
        (bits & 0x20 != 0, "STORAGE_TEXEL_BUFFER_ATOMIC")
    } else if k == 7 {
        (bits & 0x40 != 0, "VERTEX_BUFFER")
    } else if k == 8 {
        (bits & 0x80 != 0, "COLOR_ATTACHMENT")
    } else if k == 9 {
        (bits & 0x100 != 0, "COLOR_ATTACHMENT_BLEND")
    } else if k == 10 {
        (bits & 0x200 != 0, "DEPTH_STENCIL_ATTACHMENT")
    } else if k == 11 {
        (bits & 0x400 != 0, "BLIT_SRC")
    } else if k == 12 {
        (bits & 0x800 != 0, "BLIT_DST")
    } else if k == 13 {
        (bits & 0x1000 != 0, "SAMPLED_IMAGE_FILTER_LINEAR")
    } else if k == 14 {
        (bits & 0x2000 != 0, "SAMPLED_IMAGE_FILTER_CUBIC_BIT")
    } else {
        (bits & 0x8000_0000 != 0, "0x80000000")
    }
}

/// Names joined with ` | `.
pub open spec fn join_parts(parts: Seq<Seq<char>>) -> Seq<char>
    decreases parts.len(),
{
    if parts.len() == 0 {
        Seq::empty()
    } else if parts.len() == 1 {
        parts[0]
    } else {
        join_parts(parts.drop_last()) + " | "@ + parts.last()
    }
}

/// A format-feature mask as it is printed: its flag names joined with ` | `, or
/// `(empty)` when none is set.
pub open spec fn feature_text(bits: u32) -> Seq<char> {
    if feature_parts(bits).len() == 0 { "(empty)"@ } else { join_parts(feature_parts(bits)) }
}

/// Appends `name` to the text of the names so far (`parts`).
fn push_part(s: &mut String, count: &mut usize, name: &str, Ghost(parts): Ghost<Seq<Seq<char>>>)
    requires
        old(s)@ == join_parts(parts),
        *old(count) == parts.len(),
        parts.len() < usize::MAX,
    ensures
        final(s)@ == join_parts(parts.push(name@)),
        *final(count) == parts.len() + 1,
{
    let ghost p = parts.push(name@);
    assert(p.drop_last() =~= parts);
    if *count == 0 {
        assert(parts.len() == 0);
        s.append(name);
        assert(s@ =~= name@);
    } else {
        s.append(" | ");
        s.append(name);
    }
    *count = *count + 1;
}

/// A format-feature mask as it is printed (see `feature_text`).
pub fn feature_string(bits: u32) -> (r: String)
    ensures
        r@ == feature_text(bits),
{
    let mut s = String::new();
    let mut count: usize = 0;
    let mut k: usize = 0;
    assert(s@ =~= join_parts(parts_upto(bits, 0)));
    while k < FLAG_TABLE_LEN
        invariant
            0 <= k <= FLAG_TABLE_LEN,
            s@ == join_parts(parts_upto(bits, k as int)),
            count == parts_upto(bits, k as int).len(),
            count <= k,
        decreases FLAG_TABLE_LEN - k,
    {
        let (present, name) = flag_at(bits, k);
        if present {
            push_part(&mut s, &mut count, name, Ghost(parts_upto(bits, k as int)));
            assert(parts_upto(bits, k as int + 1) =~= parts_upto(bits, k as int).push(name@));
        }
        k = k + 1;
        proof {
            if !present {
                assert(parts_upto(bits, k as int) =~= parts_upto(bits, k as int - 1));
            }
        }
    }
    if count == 0 {
        "(empty)".to_owned()
    } else {
        s
    }
}

} // verus!
