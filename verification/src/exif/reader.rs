//! Reading EXIF: turning the fields the `exif` crate parses into the
//! library's table.
use vstd::prelude::*;
use vstd::utf8::{decode_utf8, valid_utf8};
use crate::exif::jpeg::{le16, le32};
use crate::model::{ExifMap, ExifTag, ExifValue, TagView, ValueView, distinct_keys};
use crate::text::{hex4, push_decimal, push_hex4, decimal, string_from_chars};

verus! {

// ============================================================================
// The parsed fields, as plain values
// ============================================================================

/// How a tag number is read: the IFD family it belongs to.
#[derive(Debug, Clone, Copy, PartialEq, Eq, Structural)]
pub enum TagContext {
    Tiff,
    Exif,
    Gps,
    Interop,
    /// A family added to the crate after this list was written.
    Other,
}

/// A value as the `exif` crate parses it; floats are kept as their bits.
#[derive(Debug, Clone, PartialEq)]
pub enum RawValue {
    Byte(Vec<u8>),
    Ascii(Vec<Vec<u8>>),
    Short(Vec<u16>),
    Long(Vec<u32>),
    Rational(Vec<(u32, u32)>),
    SByte(Vec<i8>),
    Undefined(Vec<u8>),
    SShort(Vec<i16>),
    SLong(Vec<i32>),
    SRational(Vec<(i32, i32)>),
    Float(Vec<u32>),
    Double(Vec<u64>),
    Unknown,
}

pub enum RawValueView {
    Byte(Seq<u8>),
    Ascii(Seq<Seq<u8>>),
    Short(Seq<u16>),
    Long(Seq<u32>),
    Rational(Seq<(u32, u32)>),
    SByte(Seq<i8>),
    Undefined(Seq<u8>),
    SShort(Seq<i16>),
    SLong(Seq<i32>),
    SRational(Seq<(i32, i32)>),
    Float(Seq<u32>),
    Double(Seq<u64>),
    Unknown,
}

impl View for RawValue {
    type V = RawValueView;

    open spec fn view(&self) -> RawValueView {
        match self {
            RawValue::Byte(v) => RawValueView::Byte(v@),
            RawValue::Ascii(v) => RawValueView::Ascii(v@.map_values(|x: Vec<u8>| x@)),
            RawValue::Short(v) => RawValueView::Short(v@),
            RawValue::Long(v) => RawValueView::Long(v@),
            RawValue::Rational(v) => RawValueView::Rational(v@),
            RawValue::SByte(v) => RawValueView::SByte(v@),
            RawValue::Undefined(v) => RawValueView::Undefined(v@),
            RawValue::SShort(v) => RawValueView::SShort(v@),
            RawValue::SLong(v) => RawValueView::SLong(v@),
            RawValue::SRational(v) => RawValueView::SRational(v@),
            RawValue::Float(v) => RawValueView::Float(v@),
            RawValue::Double(v) => RawValueView::Double(v@),
            RawValue::Unknown => RawValueView::Unknown,
        }
    }
}

/// One parsed field: its tag, the index of its IFD, its value.
#[derive(Debug, Clone, PartialEq)]
pub struct RawField {
    pub context: TagContext,
    pub number: u16,
    pub ifd: u16,
    pub value: RawValue,
}

pub struct RawFieldView {
    pub context: TagContext,
    pub number: u16,
    pub ifd: u16,
    pub value: RawValueView,
}

impl View for RawField {
    type V = RawFieldView;

    open spec fn view(&self) -> RawFieldView {
        RawFieldView { context: self.context, number: self.number, ifd: self.ifd, value: self.value@ }
    }
}

// ============================================================================
// The `exif` crate
// ============================================================================

#[verifier::external_type_specification]
#[verifier::external_body]
pub struct ExExifField(exif::Field);

#[verifier::external_type_specification]
#[verifier::external_body]
pub struct ExExifValue(exif::Value);

/// The fields the `exif` crate finds in an image file (TIFF, JPEG, HEIF,
/// PNG or WebP), in the order it lists them; `None` when it reports an
/// error, a partial result included.
pub uninterp spec fn container_fields(data: Seq<u8>) -> Option<Seq<RawFieldView>>;

/// The description the `exif` crate gives a tag, if it knows the tag.
pub uninterp spec fn tag_description(context: TagContext, number: u16) -> Option<Seq<char>>;

/// An `exif::Value` as plain values: the integer kinds; the others go to
/// `raw_fraction`. Nothing is claimed of the result.
#[verifier::external_body]
fn raw_value(v: &exif::Value) -> RawValue {
    match v {
        exif::Value::Byte(x) => RawValue::Byte(x.clone()),
        exif::Value::Ascii(x) => RawValue::Ascii(x.clone()),
        exif::Value::Short(x) => RawValue::Short(x.clone()),
        exif::Value::Long(x) => RawValue::Long(x.clone()),
        exif::Value::SByte(x) => RawValue::SByte(x.clone()),
        exif::Value::Undefined(x, _) => RawValue::Undefined(x.clone()),
        exif::Value::SShort(x) => RawValue::SShort(x.clone()),
        exif::Value::SLong(x) => RawValue::SLong(x.clone()),
        _ => raw_fraction(v),
    }
}

/// An `exif::Value` of a rational or floating-point kind as plain values
/// (numerator and denominator pairs, float bits). Nothing is claimed of the
/// result.
#[verifier::external_body]
fn raw_fraction(v: &exif::Value) -> RawValue {
    match v {
        exif::Value::Rational(x) => RawValue::Rational(x.iter().map(|r| (r.num, r.denom)).collect()),
        exif::Value::SRational(x) => RawValue::SRational(x.iter().map(|r| (r.num, r.denom)).collect()),
        exif::Value::Float(x) => RawValue::Float(x.iter().map(|f| f.to_bits()).collect()),
        exif::Value::Double(x) => RawValue::Double(x.iter().map(|f| f.to_bits()).collect()),
        _ => RawValue::Unknown,
    }
}

/// An `exif::Field` as plain values: its tag's IFD family and number, the
/// index of its IFD (`In`) and its value. Nothing is claimed of the result.
#[verifier::external_body]
fn raw_field(f: &exif::Field) -> RawField {
    let context = match f.tag.0 {
        exif::Context::Tiff => TagContext::Tiff,
        exif::Context::Exif => TagContext::Exif,
        exif::Context::Gps => TagContext::Gps,
        exif::Context::Interop => TagContext::Interop,
        _ => TagContext::Other,
    };
    RawField { context, number: f.tag.1, ifd: f.ifd_num.0, value: raw_value(&f.value) }
}

/// `exif::Reader::read_from_container` with `continue_on_error(true)`, then
/// `Exif::fields`: the fields of an image file. The result is named, not
/// stated; an error carries the crate's message, of which nothing is stated.
#[verifier::external_body]
fn read_container(data: &[u8]) -> (r: Result<Vec<RawField>, String>)
    ensures
        match r {
            Ok(fields) => container_fields(data@) == Some(fields@.map_values(|f: RawField| f@)),
            Err(_) => container_fields(data@) is None,
        },
{
    let mut cursor = std::io::Cursor::new(data);
    let mut reader = exif::Reader::new();
    let parsed = reader.continue_on_error(true).read_from_container(&mut cursor);
    match parsed {
        Ok(e) => Ok(e.fields().map(|f| raw_field(f)).collect()),
        Err(e) => Err(e.to_string()),
    }
}

/// `Tag::description` of the `exif` crate for the tag `(context, number)`.
#[verifier::external_body]
fn describe_tag(context: TagContext, number: u16) -> (r: Option<String>)
    ensures
        match r {
            Some(s) => tag_description(context, number) == Some(s@),
            None => tag_description(context, number) is None,
        },
{
    let c = match context {
        TagContext::Tiff => exif::Context::Tiff,
        TagContext::Exif => exif::Context::Exif,
        TagContext::Gps => exif::Context::Gps,
        TagContext::Interop => exif::Context::Interop,
        TagContext::Other => return None,
    };
    exif::Tag(c, number).description().map(|s| s.to_string())
}

/// `std::str::from_utf8`: the text of bytes that are valid UTF-8.
#[verifier::external_body]
pub(crate) fn utf8_text(bytes: &[u8]) -> (r: Option<String>)
    ensures
        r is Some <==> valid_utf8(bytes@),
        r matches Some(s) ==> s@ == decode_utf8(bytes@),
{
    std::str::from_utf8(bytes).ok().map(|s| s.to_string())
}

// ============================================================================
// Names
// ============================================================================

/// The name of an IFD index.
pub open spec fn ifd_name_of(index: u16) -> Seq<char> {
    if index == 0 {
        "Primary"@
    } else if index == 1 {
        "Thumbnail"@
    } else if index == 2 {
        "ExifIFD"@
    } else if index == 3 {
        "GPS"@
    } else if index == 4 {
        "InteropIFD"@
    } else {
        "IFD"@ + decimal(index as nat)
    }
}

/// The Chinese name of a common tag.
pub open spec fn chinese_tag_name(context: TagContext, number: u16) -> Option<Seq<char>> {
    match (context, number) {
        (TagContext::Tiff, 0x010F) => Some("制造商"@),  // Make
        (TagContext::Tiff, 0x0110) => Some("型号"@),  // Model
        (TagContext::Tiff, 0x0112) => Some("方向"@),  // Orientation
        (TagContext::Tiff, 0x011A) => Some("水平分辨率"@),  // XResolution
        (TagContext::Tiff, 0x011B) => Some("垂直分辨率"@),  // YResolution
        (TagContext::Tiff, 0x0128) => Some("分辨率单位"@),  // ResolutionUnit
        (TagContext::Tiff, 0x0131) => Some("软件"@),  // Software
        (TagContext::Tiff, 0x0132) => Some("修改时间"@),  // DateTime
        (TagContext::Tiff, 0x8298) => Some("版权"@),  // Copyright
        (TagContext::Exif, 0x829A) => Some("曝光时间"@),  // ExposureTime
        (TagContext::Exif, 0x829D) => Some("光圈值"@),  // FNumber
        (TagContext::Exif, 0x8822) => Some("曝光程序"@),  // ExposureProgram
        (TagContext::Exif, 0x8833) => Some("ISO"@),  // ISOSpeed
        (TagContext::Exif, 0x9000) => Some("Exif版本"@),  // ExifVersion
        (TagContext::Exif, 0x9003) => Some("拍摄时间"@),  // DateTimeOriginal
        (TagContext::Exif, 0x9004) => Some("数字化时间"@),  // DateTimeDigitized
        (TagContext::Exif, 0x9201) => Some("快门速度"@),  // ShutterSpeedValue
        (TagContext::Exif, 0x9202) => Some("光圈"@),  // ApertureValue
        (TagContext::Exif, 0x9203) => Some("亮度"@),  // BrightnessValue
        (TagContext::Exif, 0x9204) => Some("曝光补偿"@),  // ExposureBiasValue
        (TagContext::Exif, 0x9205) => Some("最大光圈"@),  // MaxApertureValue
        (TagContext::Exif, 0x9206) => Some("拍摄距离"@),  // SubjectDistance
        (TagContext::Exif, 0x9207) => Some("测光模式"@),  // MeteringMode
        (TagContext::Exif, 0x9208) => Some("光源"@),  // LightSource
        (TagContext::Exif, 0x9209) => Some("闪光灯"@),  // Flash
        (TagContext::Exif, 0x920A) => Some("焦距"@),  // FocalLength
        (TagContext::Exif, 0x9214) => Some("主体区域"@),  // SubjectArea
        (TagContext::Exif, 0x927C) => Some("制造商备注"@),  // MakerNote
        (TagContext::Exif, 0x9286) => Some("用户注释"@),  // UserComment
        (TagContext::Exif, 0x9290) => Some("亚秒时间"@),  // SubSecTime
        (TagContext::Exif, 0x9291) => Some("原始亚秒"@),  // SubSecTimeOriginal
        (TagContext::Exif, 0x9292) => Some("数字化亚秒"@),  // SubSecTimeDigitized
        (TagContext::Exif, 0xA000) => Some("Flashpix版本"@),  // FlashpixVersion
        (TagContext::Exif, 0xA001) => Some("颜色空间"@),  // ColorSpace
        (TagContext::Exif, 0xA002) => Some("像素宽度"@),  // PixelXDimension
        (TagContext::Exif, 0xA003) => Some("像素高度"@),  // PixelYDimension
        (TagContext::Exif, 0xA20E) => Some("焦平面X分辨率"@),  // FocalPlaneXResolution
        (TagContext::Exif, 0xA20F) => Some("焦平面Y分辨率"@),  // FocalPlaneYResolution
        (TagContext::Exif, 0xA210) => Some("焦平面单位"@),  // FocalPlaneResolutionUnit
        (TagContext::Exif, 0xA217) => Some("感应方式"@),  // SensingMethod
        (TagContext::Exif, 0xA300) => Some("文件来源"@),  // FileSource
        (TagContext::Exif, 0xA301) => Some("场景类型"@),  // SceneType
        (TagContext::Exif, 0xA302) => Some("CFA模式"@),  // CFAPattern
        (TagContext::Exif, 0xA401) => Some("自定义渲染"@),  // CustomRendered
        (TagContext::Exif, 0xA402) => Some("曝光模式"@),  // ExposureMode
        (TagContext::Exif, 0xA403) => Some("白平衡"@),  // WhiteBalance
        (TagContext::Exif, 0xA404) => Some("数码变焦"@),  // DigitalZoomRatio
        (TagContext::Exif, 0xA405) => Some("35mm等效焦距"@),  // FocalLengthIn35mmFilm
        (TagContext::Exif, 0xA406) => Some("场景捕获类型"@),  // SceneCaptureType
        (TagContext::Exif, 0xA407) => Some("增益控制"@),  // GainControl
        (TagContext::Exif, 0xA408) => Some("对比度"@),  // Contrast
        (TagContext::Exif, 0xA409) => Some("饱和度"@),  // Saturation
        (TagContext::Exif, 0xA40A) => Some("锐度"@),  // Sharpness
        (TagContext::Exif, 0xA40B) => Some("设备设置"@),  // DeviceSettingDescription
        (TagContext::Exif, 0xA40C) => Some("距离范围"@),  // SubjectDistanceRange
        (TagContext::Exif, 0xA432) => Some("镜头规格"@),  // LensSpecification
        (TagContext::Exif, 0xA433) => Some("镜头制造商"@),  // LensMake
        (TagContext::Exif, 0xA434) => Some("镜头型号"@),  // LensModel
        (TagContext::Exif, 0xA435) => Some("镜头序列号"@),  // LensSerialNumber
        (TagContext::Gps, 0x0000) => Some("GPS版本"@),  // GPSVersionID
        (TagContext::Gps, 0x0001) => Some("纬度方向"@),  // GPSLatitudeRef
        (TagContext::Gps, 0x0002) => Some("纬度"@),  // GPSLatitude
        (TagContext::Gps, 0x0003) => Some("经度方向"@),  // GPSLongitudeRef
        (TagContext::Gps, 0x0004) => Some("经度"@),  // GPSLongitude
        (TagContext::Gps, 0x0005) => Some("高度参考"@),  // GPSAltitudeRef
        (TagContext::Gps, 0x0006) => Some("高度"@),  // GPSAltitude
        (TagContext::Gps, 0x0007) => Some("GPS时间"@),  // GPSTimeStamp
        (TagContext::Gps, 0x0008) => Some("卫星数"@),  // GPSSatellites
        (TagContext::Gps, 0x0009) => Some("GPS状态"@),  // GPSStatus
        (TagContext::Gps, 0x000A) => Some("测量模式"@),  // GPSMeasureMode
        (TagContext::Gps, 0x000B) => Some("精度"@),  // GPSDOP
        (TagContext::Gps, 0x000C) => Some("速度单位"@),  // GPSSpeedRef
        (TagContext::Gps, 0x000D) => Some("速度"@),  // GPSSpeed
        (TagContext::Gps, 0x000E) => Some("方向参考"@),  // GPSTrackRef
        (TagContext::Gps, 0x000F) => Some("方向"@),  // GPSTrack
        (TagContext::Gps, 0x0010) => Some("图片方向参考"@),  // GPSImgDirectionRef
        (TagContext::Gps, 0x0011) => Some("图片方向"@),  // GPSImgDirection
        (TagContext::Gps, 0x0012) => Some("大地基准"@),  // GPSMapDatum
        (TagContext::Gps, 0x0013) => Some("目标纬度方向"@),  // GPSDestLatitudeRef
        (TagContext::Gps, 0x0014) => Some("目标纬度"@),  // GPSDestLatitude
        (TagContext::Gps, 0x0015) => Some("目标经度方向"@),  // GPSDestLongitudeRef
        (TagContext::Gps, 0x0016) => Some("目标经度"@),  // GPSDestLongitude
        (TagContext::Gps, 0x0017) => Some("目标方向参考"@),  // GPSDestBearingRef
        (TagContext::Gps, 0x0018) => Some("目标方向"@),  // GPSDestBearing
        (TagContext::Gps, 0x0019) => Some("目标距离单位"@),  // GPSDestDistanceRef
        (TagContext::Gps, 0x001A) => Some("目标距离"@),  // GPSDestDistance
        (TagContext::Gps, 0x001B) => Some("处理方法"@),  // GPSProcessingMethod
        (TagContext::Gps, 0x001C) => Some("区域信息"@),  // GPSAreaInformation
        (TagContext::Gps, 0x001D) => Some("GPS日期"@),  // GPSDateStamp
        (TagContext::Gps, 0x001E) => Some("差分"@),  // GPSDifferential
        (TagContext::Tiff, 0x0100) => Some("图像宽度"@),  // ImageWidth
        (TagContext::Tiff, 0x0101) => Some("图像高度"@),  // ImageLength
        (TagContext::Tiff, 0x0102) => Some("位深度"@),  // BitsPerSample
        (TagContext::Tiff, 0x0103) => Some("压缩方式"@),  // Compression
        (TagContext::Tiff, 0x0106) => Some("色彩解释"@),  // PhotometricInterpretation
        (TagContext::Tiff, 0x0111) => Some("条偏移"@),  // StripOffsets
        (TagContext::Tiff, 0x0115) => Some("采样/像素"@),  // SamplesPerPixel
        (TagContext::Tiff, 0x0116) => Some("行/条"@),  // RowsPerStrip
        (TagContext::Tiff, 0x0117) => Some("条字节数"@),  // StripByteCounts
        (TagContext::Tiff, 0x011C) => Some("平面配置"@),  // PlanarConfiguration
        _ => None,
    }
}

fn chinese_tag_name_exec(context: TagContext, number: u16) -> (r: Option<&'static str>)
    ensures
        match r {
            Some(s) => chinese_tag_name(context, number) == Some(s@),
            None => chinese_tag_name(context, number) is None,
        },
{
    match (context, number) {
            (TagContext::Tiff, 0x010F) => Some("制造商"),  // Make
            (TagContext::Tiff, 0x0110) => Some("型号"),  // Model
            (TagContext::Tiff, 0x0112) => Some("方向"),  // Orientation
            (TagContext::Tiff, 0x011A) => Some("水平分辨率"),  // XResolution
            (TagContext::Tiff, 0x011B) => Some("垂直分辨率"),  // YResolution
            (TagContext::Tiff, 0x0128) => Some("分辨率单位"),  // ResolutionUnit
            (TagContext::Tiff, 0x0131) => Some("软件"),  // Software
            (TagContext::Tiff, 0x0132) => Some("修改时间"),  // DateTime
            (TagContext::Tiff, 0x8298) => Some("版权"),  // Copyright
            (TagContext::Exif, 0x829A) => Some("曝光时间"),  // ExposureTime
            (TagContext::Exif, 0x829D) => Some("光圈值"),  // FNumber
            (TagContext::Exif, 0x8822) => Some("曝光程序"),  // ExposureProgram
            (TagContext::Exif, 0x8833) => Some("ISO"),  // ISOSpeed
            (TagContext::Exif, 0x9000) => Some("Exif版本"),  // ExifVersion
            (TagContext::Exif, 0x9003) => Some("拍摄时间"),  // DateTimeOriginal
            (TagContext::Exif, 0x9004) => Some("数字化时间"),  // DateTimeDigitized
            (TagContext::Exif, 0x9201) => Some("快门速度"),  // ShutterSpeedValue
            (TagContext::Exif, 0x9202) => Some("光圈"),  // ApertureValue
            (TagContext::Exif, 0x9203) => Some("亮度"),  // BrightnessValue
            (TagContext::Exif, 0x9204) => Some("曝光补偿"),  // ExposureBiasValue
            (TagContext::Exif, 0x9205) => Some("最大光圈"),  // MaxApertureValue
            (TagContext::Exif, 0x9206) => Some("拍摄距离"),  // SubjectDistance
            (TagContext::Exif, 0x9207) => Some("测光模式"),  // MeteringMode
            (TagContext::Exif, 0x9208) => Some("光源"),  // LightSource
            (TagContext::Exif, 0x9209) => Some("闪光灯"),  // Flash
            (TagContext::Exif, 0x920A) => Some("焦距"),  // FocalLength
            (TagContext::Exif, 0x9214) => Some("主体区域"),  // SubjectArea
            (TagContext::Exif, 0x927C) => Some("制造商备注"),  // MakerNote
            (TagContext::Exif, 0x9286) => Some("用户注释"),  // UserComment
            (TagContext::Exif, 0x9290) => Some("亚秒时间"),  // SubSecTime
            (TagContext::Exif, 0x9291) => Some("原始亚秒"),  // SubSecTimeOriginal
            (TagContext::Exif, 0x9292) => Some("数字化亚秒"),  // SubSecTimeDigitized
            (TagContext::Exif, 0xA000) => Some("Flashpix版本"),  // FlashpixVersion
            (TagContext::Exif, 0xA001) => Some("颜色空间"),  // ColorSpace
            (TagContext::Exif, 0xA002) => Some("像素宽度"),  // PixelXDimension
            (TagContext::Exif, 0xA003) => Some("像素高度"),  // PixelYDimension
            (TagContext::Exif, 0xA20E) => Some("焦平面X分辨率"),  // FocalPlaneXResolution
            (TagContext::Exif, 0xA20F) => Some("焦平面Y分辨率"),  // FocalPlaneYResolution
            (TagContext::Exif, 0xA210) => Some("焦平面单位"),  // FocalPlaneResolutionUnit
            (TagContext::Exif, 0xA217) => Some("感应方式"),  // SensingMethod
            (TagContext::Exif, 0xA300) => Some("文件来源"),  // FileSource
            (TagContext::Exif, 0xA301) => Some("场景类型"),  // SceneType
            (TagContext::Exif, 0xA302) => Some("CFA模式"),  // CFAPattern
            (TagContext::Exif, 0xA401) => Some("自定义渲染"),  // CustomRendered
            (TagContext::Exif, 0xA402) => Some("曝光模式"),  // ExposureMode
            (TagContext::Exif, 0xA403) => Some("白平衡"),  // WhiteBalance
            (TagContext::Exif, 0xA404) => Some("数码变焦"),  // DigitalZoomRatio
            (TagContext::Exif, 0xA405) => Some("35mm等效焦距"),  // FocalLengthIn35mmFilm
            (TagContext::Exif, 0xA406) => Some("场景捕获类型"),  // SceneCaptureType
            (TagContext::Exif, 0xA407) => Some("增益控制"),  // GainControl
            (TagContext::Exif, 0xA408) => Some("对比度"),  // Contrast
            (TagContext::Exif, 0xA409) => Some("饱和度"),  // Saturation
            (TagContext::Exif, 0xA40A) => Some("锐度"),  // Sharpness
            (TagContext::Exif, 0xA40B) => Some("设备设置"),  // DeviceSettingDescription
            (TagContext::Exif, 0xA40C) => Some("距离范围"),  // SubjectDistanceRange
            (TagContext::Exif, 0xA432) => Some("镜头规格"),  // LensSpecification
            (TagContext::Exif, 0xA433) => Some("镜头制造商"),  // LensMake
            (TagContext::Exif, 0xA434) => Some("镜头型号"),  // LensModel
            (TagContext::Exif, 0xA435) => Some("镜头序列号"),  // LensSerialNumber
            (TagContext::Gps, 0x0000) => Some("GPS版本"),  // GPSVersionID
            (TagContext::Gps, 0x0001) => Some("纬度方向"),  // GPSLatitudeRef
            (TagContext::Gps, 0x0002) => Some("纬度"),  // GPSLatitude
            (TagContext::Gps, 0x0003) => Some("经度方向"),  // GPSLongitudeRef
            (TagContext::Gps, 0x0004) => Some("经度"),  // GPSLongitude
            (TagContext::Gps, 0x0005) => Some("高度参考"),  // GPSAltitudeRef
            (TagContext::Gps, 0x0006) => Some("高度"),  // GPSAltitude
            (TagContext::Gps, 0x0007) => Some("GPS时间"),  // GPSTimeStamp
            (TagContext::Gps, 0x0008) => Some("卫星数"),  // GPSSatellites
            (TagContext::Gps, 0x0009) => Some("GPS状态"),  // GPSStatus
            (TagContext::Gps, 0x000A) => Some("测量模式"),  // GPSMeasureMode
            (TagContext::Gps, 0x000B) => Some("精度"),  // GPSDOP
            (TagContext::Gps, 0x000C) => Some("速度单位"),  // GPSSpeedRef
            (TagContext::Gps, 0x000D) => Some("速度"),  // GPSSpeed
            (TagContext::Gps, 0x000E) => Some("方向参考"),  // GPSTrackRef
            (TagContext::Gps, 0x000F) => Some("方向"),  // GPSTrack
            (TagContext::Gps, 0x0010) => Some("图片方向参考"),  // GPSImgDirectionRef
            (TagContext::Gps, 0x0011) => Some("图片方向"),  // GPSImgDirection
            (TagContext::Gps, 0x0012) => Some("大地基准"),  // GPSMapDatum
            (TagContext::Gps, 0x0013) => Some("目标纬度方向"),  // GPSDestLatitudeRef
            (TagContext::Gps, 0x0014) => Some("目标纬度"),  // GPSDestLatitude
            (TagContext::Gps, 0x0015) => Some("目标经度方向"),  // GPSDestLongitudeRef
            (TagContext::Gps, 0x0016) => Some("目标经度"),  // GPSDestLongitude
            (TagContext::Gps, 0x0017) => Some("目标方向参考"),  // GPSDestBearingRef
            (TagContext::Gps, 0x0018) => Some("目标方向"),  // GPSDestBearing
            (TagContext::Gps, 0x0019) => Some("目标距离单位"),  // GPSDestDistanceRef
            (TagContext::Gps, 0x001A) => Some("目标距离"),  // GPSDestDistance
            (TagContext::Gps, 0x001B) => Some("处理方法"),  // GPSProcessingMethod
            (TagContext::Gps, 0x001C) => Some("区域信息"),  // GPSAreaInformation
            (TagContext::Gps, 0x001D) => Some("GPS日期"),  // GPSDateStamp
            (TagContext::Gps, 0x001E) => Some("差分"),  // GPSDifferential
            (TagContext::Tiff, 0x0100) => Some("图像宽度"),  // ImageWidth
            (TagContext::Tiff, 0x0101) => Some("图像高度"),  // ImageLength
            (TagContext::Tiff, 0x0102) => Some("位深度"),  // BitsPerSample
            (TagContext::Tiff, 0x0103) => Some("压缩方式"),  // Compression
            (TagContext::Tiff, 0x0106) => Some("色彩解释"),  // PhotometricInterpretation
            (TagContext::Tiff, 0x0111) => Some("条偏移"),  // StripOffsets
            (TagContext::Tiff, 0x0115) => Some("采样/像素"),  // SamplesPerPixel
            (TagContext::Tiff, 0x0116) => Some("行/条"),  // RowsPerStrip
            (TagContext::Tiff, 0x0117) => Some("条字节数"),  // StripByteCounts
            (TagContext::Tiff, 0x011C) => Some("平面配置"),  // PlanarConfiguration
            _ => None,
    }
}

/// The display name of a tag: the Chinese name of a common tag, else the
/// `exif` crate's description, else `Tag 0x` and its number in hex.
pub open spec fn tag_name_of(context: TagContext, number: u16) -> Seq<char> {
    match chinese_tag_name(context, number) {
        Some(n) => n,
        None => match tag_description(context, number) {
            Some(d) => d,
            None => "Tag 0x"@ + hex4(number),
        },
    }
}

// ============================================================================
// Values
// ============================================================================

/// The bytes of a list of 16-bit numbers, each little-endian.
pub open spec fn le16_all(v: Seq<u16>) -> Seq<u8>
    decreases v.len(),
{
    if v.len() == 0 { seq![] } else { le16_all(v.drop_last()) + le16(v.last()) }
}

/// The bytes of a list of 32-bit numbers, each little-endian.
pub open spec fn le32_all(v: Seq<u32>) -> Seq<u8>
    decreases v.len(),
{
    if v.len() == 0 { seq![] } else { le32_all(v.drop_last()) + le32(v.last()) }
}

/// A 64-bit number in little-endian byte order.
pub open spec fn le64(x: u64) -> Seq<u8> {
    le32((x % 0x1_0000_0000) as u32) + le32((x / 0x1_0000_0000) as u32)
}

/// The texts of the byte strings that are valid UTF-8, the others skipped.
pub open spec fn utf8_items(v: Seq<Seq<u8>>) -> Seq<Seq<char>>
    decreases v.len(),
{
    if v.len() == 0 {
        seq![]
    } else if valid_utf8(v.last()) {
        utf8_items(v.drop_last()).push(decode_utf8(v.last()))
    } else {
        utf8_items(v.drop_last())
    }
}

/// Texts joined by newlines.
pub open spec fn join_lines(v: Seq<Seq<char>>) -> Seq<char>
    decreases v.len(),
{
    if v.len() == 0 {
        seq![]
    } else if v.len() == 1 {
        v[0]
    } else {
        join_lines(v.drop_last()) + seq!['\n'] + v.last()
    }
}

/// The library value of a parsed value: a single byte, short, long or the
/// first rational keeps its type; lists of numbers become their
/// little-endian bytes; texts are joined by newlines (invalid UTF-8 is
/// skipped); floats become the bytes of their first element.
pub open spec fn converted(v: RawValueView) -> ValueView {
    match v {
        RawValueView::Byte(b) => if b.len() == 1 { ValueView::Byte(b) } else { ValueView::Slice(b) },
        RawValueView::Ascii(items) => ValueView::Ascii(join_lines(utf8_items(items))),
        RawValueView::Short(x) => if x.len() == 1 { ValueView::Short(x[0]) } else { ValueView::Slice(le16_all(x)) },
        RawValueView::Long(x) => if x.len() == 1 { ValueView::Long(x[0]) } else { ValueView::Slice(le32_all(x)) },
        RawValueView::Rational(x) => if x.len() > 0 { ValueView::Rational(x[0].0, x[0].1) } else { ValueView::Slice(seq![]) },
        RawValueView::SRational(x) => if x.len() > 0 { ValueView::SRational(x[0].0, x[0].1) } else { ValueView::Slice(seq![]) },
        RawValueView::Undefined(b) => ValueView::Undefined(b),
        RawValueView::SByte(x) => ValueView::Slice(x.map_values(|b: i8| b as u8)),
        RawValueView::SShort(x) => ValueView::Slice(le16_all(x.map_values(|n: i16| n as u16))),
        RawValueView::SLong(x) => ValueView::Slice(le32_all(x.map_values(|n: i32| n as u32))),
        RawValueView::Float(x) => ValueView::Slice(if x.len() > 0 { le32(x[0]) } else { seq![] }),
        RawValueView::Double(x) => ValueView::Slice(if x.len() > 0 { le64(x[0]) } else { seq![] }),
        RawValueView::Unknown => ValueView::Undefined(seq![]),
    }
}

/// The table read from a list of parsed fields: each field in turn sets
/// its tag, named by its IFD and its tag name.
pub open spec fn table_of(fields: Seq<RawFieldView>) -> Seq<crate::model::EntryView>
    decreases fields.len(),
{
    if fields.len() == 0 {
        seq![]
    } else {
        let f = fields.last();
        crate::model::insert_entry(
            table_of(fields.drop_last()),
            (TagView { id: f.number, ifd: ifd_name_of(f.ifd), name: tag_name_of(f.context, f.number) }, converted(f.value)),
        )
    }
}

/// Why reading EXIF failed.
#[derive(Debug, Clone, PartialEq)]
pub struct ReadError {
    /// The `exif` crate's message.
    pub message: String,
}

fn le16_bytes(x: &Vec<u16>) -> (out: Vec<u8>)
    ensures
        out@ == le16_all(x@),
{
    let mut out: Vec<u8> = Vec::new();
    let mut i: usize = 0;
    while i < x.len()
        invariant
            i <= x@.len(),
            out@ == le16_all(x@.take(i as int)),
        decreases x@.len() - i,
    {
        crate::exif::jpeg::push_le16(&mut out, x[i]);
        assert(x@.take(i + 1).drop_last() =~= x@.take(i as int));
        i = i + 1;
    }
    assert(x@.take(x@.len() as int) =~= x@);
    out
}

fn le32_bytes(x: &Vec<u32>) -> (out: Vec<u8>)
    ensures
        out@ == le32_all(x@),
{
    let mut out: Vec<u8> = Vec::new();
    let mut i: usize = 0;
    while i < x.len()
        invariant
            i <= x@.len(),
            out@ == le32_all(x@.take(i as int)),
        decreases x@.len() - i,
    {
        crate::exif::jpeg::push_le32(&mut out, x[i]);
        assert(x@.take(i + 1).drop_last() =~= x@.take(i as int));
        i = i + 1;
    }
    assert(x@.take(x@.len() as int) =~= x@);
    out
}

fn lines_of(items: &Vec<Vec<u8>>) -> (s: String)
    ensures
        s@ == join_lines(utf8_items(items@.map_values(|x: Vec<u8>| x@))),
{
    let ghost iv = items@.map_values(|x: Vec<u8>| x@);
    let mut out: Vec<char> = Vec::new();
    let mut count: usize = 0;
    let mut i: usize = 0;
    while i < items.len()
        invariant
            iv == items@.map_values(|x: Vec<u8>| x@),
            i <= items@.len(),
            out@ == join_lines(utf8_items(iv.take(i as int))),
            count as int == utf8_items(iv.take(i as int)).len(),
            count <= i,
        decreases items@.len() - i,
    {
        assert(iv.take(i + 1).drop_last() =~= iv.take(i as int));
        assert(iv.take(i + 1).last() == items@[i as int]@);
        match utf8_text(items[i].as_slice()) {
            Some(text) => {
                let ghost prev = utf8_items(iv.take(i as int));
                if count > 0 {
                    out.push('\n');
                }
                crate::text::push_str(&mut out, text.as_str());
                proof {
                    let next = prev.push(text@);
                    assert(next.drop_last() =~= prev);
                    if count == 0 {
                        assert(out@ =~= text@);
                    } else {
                        assert(out@ =~= join_lines(prev) + seq!['\n'] + text@);
                    }
                }
                count = count + 1;
            },
            None => {},
        }
        i = i + 1;
    }
    assert(iv.take(items@.len() as int) =~= iv);
    string_from_chars(&out)
}

/// Reads the EXIF of an image file's bytes into a table.
pub struct ExifReader;

impl ExifReader {
    /// The name of an IFD index.
    pub fn ifd_name(index: u16) -> (s: String)
        ensures
            s@ == ifd_name_of(index),
    {
        if index == 0 {
            String::from_str("Primary")
        } else if index == 1 {
            String::from_str("Thumbnail")
        } else if index == 2 {
            String::from_str("ExifIFD")
        } else if index == 3 {
            String::from_str("GPS")
        } else if index == 4 {
            String::from_str("InteropIFD")
        } else {
            let mut out: Vec<char> = Vec::new();
            crate::text::push_str(&mut out, "IFD");
            push_decimal(&mut out, index as u64);
            string_from_chars(&out)
        }
    }

    /// The display name of a tag.
    pub fn tag_name(context: TagContext, number: u16) -> (s: String)
        ensures
            s@ == tag_name_of(context, number),
    {
        match chinese_tag_name_exec(context, number) {
            Some(n) => String::from_str(n),
            None => match describe_tag(context, number) {
                Some(d) => d,
                None => {
                    let mut out: Vec<char> = Vec::new();
                    crate::text::push_str(&mut out, "Tag 0x");
                    push_hex4(&mut out, number);
                    string_from_chars(&out)
                },
            },
        }
    }

    /// The library value of a parsed value.
    pub fn convert_value(v: &RawValue) -> (r: ExifValue)
        ensures
            r@ == converted(v@),
    {
        match v {
            RawValue::Byte(b) => {
                if b.len() == 1 {
                    ExifValue::Byte(vstd::slice::slice_to_vec(b.as_slice()))
                } else {
                    ExifValue::Slice(vstd::slice::slice_to_vec(b.as_slice()))
                }
            },
            RawValue::Ascii(items) => ExifValue::Ascii(lines_of(items)),
            RawValue::Short(x) => {
                if x.len() == 1 {
                    ExifValue::Short(x[0])
                } else {
                    ExifValue::Slice(le16_bytes(x))
                }
            },
            RawValue::Long(x) => {
                if x.len() == 1 {
                    ExifValue::Long(x[0])
                } else {
                    ExifValue::Slice(le32_bytes(x))
                }
            },
            RawValue::Rational(x) => {
                if x.len() > 0 {
                    ExifValue::Rational(x[0].0, x[0].1)
                } else {
                    ExifValue::Slice(Vec::new())
                }
            },
            RawValue::SRational(x) => {
                if x.len() > 0 {
                    ExifValue::SRational(x[0].0, x[0].1)
                } else {
                    ExifValue::Slice(Vec::new())
                }
            },
            RawValue::Undefined(b) => ExifValue::Undefined(vstd::slice::slice_to_vec(b.as_slice())),
            RawValue::SByte(x) => {
                let mut out: Vec<u8> = Vec::new();
                let mut i: usize = 0;
                while i < x.len()
                    invariant
                        i <= x@.len(),
                        out@ == x@.take(i as int).map_values(|b: i8| b as u8),
                    decreases x@.len() - i,
                {
                    out.push(x[i] as u8);
                    assert(x@.take(i + 1).map_values(|b: i8| b as u8)
                        =~= x@.take(i as int).map_values(|b: i8| b as u8).push(x@[i as int] as u8));
                    i = i + 1;
                }
                assert(x@.take(x@.len() as int) =~= x@);
                ExifValue::Slice(out)
            },
            RawValue::SShort(x) => {
                let mut u: Vec<u16> = Vec::new();
                let mut i: usize = 0;
                while i < x.len()
                    invariant
                        i <= x@.len(),
                        u@ == x@.take(i as int).map_values(|n: i16| n as u16),
                    decreases x@.len() - i,
                {
                    u.push(x[i] as u16);
                    assert(x@.take(i + 1).map_values(|n: i16| n as u16)
                        =~= x@.take(i as int).map_values(|n: i16| n as u16).push(x@[i as int] as u16));
                    i = i + 1;
                }
                assert(x@.take(x@.len() as int) =~= x@);
                ExifValue::Slice(le16_bytes(&u))
            },
            RawValue::SLong(x) => {
                let mut u: Vec<u32> = Vec::new();
                let mut i: usize = 0;
                while i < x.len()
                    invariant
                        i <= x@.len(),
                        u@ == x@.take(i as int).map_values(|n: i32| n as u32),
                    decreases x@.len() - i,
                {
                    u.push(x[i] as u32);
                    assert(x@.take(i + 1).map_values(|n: i32| n as u32)
                        =~= x@.take(i as int).map_values(|n: i32| n as u32).push(x@[i as int] as u32));
                    i = i + 1;
                }
                assert(x@.take(x@.len() as int) =~= x@);
                ExifValue::Slice(le32_bytes(&u))
            },
            RawValue::Float(x) => {
                let mut out: Vec<u8> = Vec::new();
                if x.len() > 0 {
                    crate::exif::jpeg::push_le32(&mut out, x[0]);
                }
                assert(out@ =~= (if x@.len() > 0 { le32(x@[0]) } else { seq![] }));
                ExifValue::Slice(out)
            },
            RawValue::Double(x) => {
                let mut out: Vec<u8> = Vec::new();
                if x.len() > 0 {
                    crate::exif::jpeg::push_le32(&mut out, (x[0] % 0x1_0000_0000) as u32);
                    crate::exif::jpeg::push_le32(&mut out, (x[0] / 0x1_0000_0000) as u32);
                }
                assert(out@ =~= (if x@.len() > 0 { le64(x@[0]) } else { seq![] }));
                ExifValue::Slice(out)
            },
            RawValue::Unknown => ExifValue::Undefined(Vec::new()),
        }
    }

    /// Reads the EXIF of an image file's bytes: every field the `exif` crate
    /// finds sets its tag in the table, in the crate's order.
    pub fn read(data: &[u8]) -> (r: Result<ExifMap, ReadError>)
        ensures
            r is Err <==> container_fields(data@) is None,
            r matches Ok(m) ==> m.wf() && m@ == table_of(container_fields(data@).unwrap()),
    {
        let fields = match read_container(data) {
            Ok(f) => f,
            Err(message) => return Err(ReadError { message }),
        };
        let ghost fv = fields@.map_values(|f: RawField| f@);
        let mut entries = ExifMap::new();
        let mut i: usize = 0;
        while i < fields.len()
            invariant
                fv == fields@.map_values(|f: RawField| f@),
                i <= fields@.len(),
                entries.wf(),
                entries@ == table_of(fv.take(i as int)),
            decreases fields@.len() - i,
        {
            let f = &fields[i];
            let tag = ExifTag { id: f.number, ifd: Self::ifd_name(f.ifd), name: Self::tag_name(f.context, f.number) };
            let value = Self::convert_value(&f.value);
            assert(fv.take(i + 1).drop_last() =~= fv.take(i as int));
            assert(fv.take(i + 1).last() == f@);
            entries.insert(tag, value);
            i = i + 1;
        }
        assert(fv.take(fields@.len() as int) =~= fv);
        Ok(entries)
    }
}

} // verus!
