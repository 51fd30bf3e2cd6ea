//! What the assistant says once a system command has been carried out.
use crate::text::{append_str, chars_of, string_of, u64_decimal, decimal};
use crate::voice::commands::DeviceTarget;
use vstd::prelude::*;

verus! {

/// A media key that was pressed.
#[derive(Debug, Clone, Copy, PartialEq, Eq, Structural)]
pub enum MediaKey {
    PlayPause,
    Next,
    Prev,
}

/// A control that only one platform offers.
#[derive(Debug, Clone, Copy, PartialEq, Eq, Structural)]
pub enum PlatformFeature {
    Volume,
    Mute,
    Media,
}

/// How carrying out a system command went.
#[derive(Debug, Clone, PartialEq, Eq)]
pub enum CommandOutcome {
    /// An application was started.
    Opened,
    /// A file was opened with an application.
    OpenedFile,
    /// A web page was opened.
    OpenedPage,
    /// Music started playing.
    MusicStarted,
    /// Starting or opening failed, for this reason.
    OpenFailed(String),
    /// The file to open does not exist.
    FileMissing(String),
    /// The volume is now this percentage.
    VolumeSet(u32),
    /// Setting the volume failed, for this reason.
    VolumeFailed(String),
    /// Sound was muted (`true`) or restored (`false`).
    Muted(bool),
    /// Muting failed, for this reason.
    MuteFailed(String),
    /// A media key was pressed.
    Media(MediaKey),
    /// The control is not available on this platform.
    Unsupported(PlatformFeature),
    /// The input devices could not be listed.
    DeviceListFailed,
    /// No input device matches the target.
    DeviceNotFound(DeviceTarget),
    /// Saving the new input device failed, for this reason.
    SaveFailed(String),
    /// Restarting the listener on the new device failed, for this reason.
    SwitchFailed(String),
    /// The listener now uses the device of this name.
    Switched(String),
}

/// The word that names the device looked for.
pub open spec fn target_word(target: DeviceTarget) -> Seq<char> {
    match target {
        DeviceTarget::Internal => "麦克风"@,
        DeviceTarget::Headset => "耳机"@,
    }
}

/// The reply to each outcome.
pub open spec fn reply_of(o: CommandOutcome) -> Seq<char> {
    match o {
        CommandOutcome::Opened => "好的，已打开"@,
        CommandOutcome::OpenedFile => "好的，已打开文件"@,
        CommandOutcome::OpenedPage => "好的，已打开网页"@,
        CommandOutcome::MusicStarted => "好的，已开始播放"@,
        CommandOutcome::OpenFailed(e) => "打开失败："@ + e@,
        CommandOutcome::FileMissing(t) => "找不到文件："@ + t@,
        CommandOutcome::VolumeSet(p) => "音量已调到 "@ + decimal(p as nat),
        CommandOutcome::VolumeFailed(e) => "音量调节失败："@ + e@,
        CommandOutcome::Muted(m) => if m {
            "已静音"@
        } else {
            "已恢复声音"@
        },
        CommandOutcome::MuteFailed(e) => "静音操作失败："@ + e@,
        CommandOutcome::Media(k) => match k {
            MediaKey::Next => "已切换下一首"@,
            MediaKey::Prev => "已切换上一首"@,
            MediaKey::PlayPause => "已播放"@,
        },
        CommandOutcome::Unsupported(f) => match f {
            PlatformFeature::Volume => "音量调节仅在 Windows 可用"@,
            PlatformFeature::Mute => "静音仅在 Windows 可用"@,
            PlatformFeature::Media => "媒体控制仅在 Windows 可用"@,
        },
        CommandOutcome::DeviceListFailed => "获取设备列表失败"@,
        CommandOutcome::DeviceNotFound(t) => "没有找到"@ + target_word(t) + "设备"@,
        CommandOutcome::SaveFailed(e) => "保存配置失败："@ + e@,
        CommandOutcome::SwitchFailed(e) => "切换设备失败："@ + e@,
        CommandOutcome::Switched(n) => "已切换到"@ + n@,
    }
}

/// What to say once a system command was carried out.
pub fn command_reply(o: &CommandOutcome) -> (res: String)
    ensures
        res@ == reply_of(*o),
{
    let v = match o {
        CommandOutcome::Opened => chars_of("好的，已打开"),
        CommandOutcome::OpenedFile => chars_of("好的，已打开文件"),
        CommandOutcome::OpenedPage => chars_of("好的，已打开网页"),
        CommandOutcome::MusicStarted => chars_of("好的，已开始播放"),
        CommandOutcome::OpenFailed(e) => {
            let mut v = chars_of("打开失败：");
            append_str(&mut v, e.as_str());
            v
        },
        CommandOutcome::FileMissing(t) => {
            let mut v = chars_of("找不到文件：");
            append_str(&mut v, t.as_str());
            v
        },
        CommandOutcome::VolumeSet(p) => {
            let mut v = chars_of("音量已调到 ");
            let d = u64_decimal(*p as u64);
            crate::text::append_chars(&mut v, &d);
            v
        },
        CommandOutcome::VolumeFailed(e) => {
            let mut v = chars_of("音量调节失败：");
            append_str(&mut v, e.as_str());
            v
        },
        CommandOutcome::Muted(m) => if *m {
            chars_of("已静音")
        } else {
            chars_of("已恢复声音")
        },
        CommandOutcome::MuteFailed(e) => {
            let mut v = chars_of("静音操作失败：");
            append_str(&mut v, e.as_str());
            v
        },
        CommandOutcome::Media(k) => match k {
            MediaKey::Next => chars_of("已切换下一首"),
            MediaKey::Prev => chars_of("已切换上一首"),
            MediaKey::PlayPause => chars_of("已播放"),
        },
        CommandOutcome::Unsupported(f) => match f {
            PlatformFeature::Volume => chars_of("音量调节仅在 Windows 可用"),
            PlatformFeature::Mute => chars_of("静音仅在 Windows 可用"),
            PlatformFeature::Media => chars_of("媒体控制仅在 Windows 可用"),
        },
        CommandOutcome::DeviceListFailed => chars_of("获取设备列表失败"),
        CommandOutcome::DeviceNotFound(t) => {
            let mut v = chars_of("没有找到");
            match t {
                DeviceTarget::Internal => append_str(&mut v, "麦克风"),
                DeviceTarget::Headset => append_str(&mut v, "耳机"),
            }
            append_str(&mut v, "设备");
            v
        },
        CommandOutcome::SaveFailed(e) => {
            let mut v = chars_of("保存配置失败：");
            append_str(&mut v, e.as_str());
            v
        },
        CommandOutcome::SwitchFailed(e) => {
            let mut v = chars_of("切换设备失败：");
            append_str(&mut v, e.as_str());
            v
        },
        CommandOutcome::Switched(n) => {
            let mut v = chars_of("已切换到");
            append_str(&mut v, n.as_str());
            v
        },
    };
    string_of(&v)
}

/// How a volume command is carried out: a level from 0 to 100 is set as
/// it is; any other amount is added to the current volume.
#[derive(Debug, Clone, Copy, PartialEq, Eq, Structural)]
pub enum VolumeChange {
    SetTo(u32),
    AddTo(i32),
}

pub fn volume_change(percent: i32) -> (res: VolumeChange)
    ensures
        0 <= percent <= 100 ==> res == VolumeChange::SetTo(percent as u32),
        !(0 <= percent <= 100) ==> res == VolumeChange::AddTo(percent),
{
    if 0 <= percent && percent <= 100 {
        VolumeChange::SetTo(percent as u32)
    } else {
        VolumeChange::AddTo(percent)
    }
}

} // verus!
