//! Card icons, stored in workspace files under their variant names.
use vstd::prelude::*;
use crate::text::{chars_of, chars_eq_str};

verus! {

/// The icon shown on a card.
#[derive(Debug, Clone, Copy, PartialEq, Eq, Structural)]
pub enum CardIcon {
    Default,
    Star,
    Heart,
    Circle,
    Square,
    Triangle,
    Check,
    Cross,
    Question,
    Exclamation,
    Plus,
    Minus,
    StarFill,
    HeartFill,
    CircleFill,
    SquareFill,
    TriangleFill,
    Diamond,
    DiamondFill,
    Hexagon,
    HexagonFill,
    Octagon,
    OctagonFill,
    Pentagon,
    PentagonFill,
    CheckCircle,
    CheckCircleFill,
    XCircle,
    XCircleFill,
    InfoCircle,
    InfoCircleFill,
    ExclamationTriangle,
    ExclamationTriangleFill,
    ExclamationCircle,
    ExclamationCircleFill,
    QuestionCircle,
    QuestionCircleFill,
    PlusCircle,
    PlusCircleFill,
    DashCircle,
    DashCircleFill,
    ArrowUp,
    ArrowDown,
    ArrowLeft,
    ArrowRight,
    ArrowUpCircle,
    ArrowDownCircle,
    ArrowLeftCircle,
    ArrowRightCircle,
    Book,
    BookFill,
    Bookmark,
    BookmarkFill,
    Calendar,
    CalendarFill,
    Clock,
    ClockFill,
    Flag,
    FlagFill,
    Folder,
    FolderFill,
    Gear,
    GearFill,
    House,
    HouseFill,
    Lightning,
    LightningFill,
    Lightbulb,
    LightbulbFill,
    Link,
    Lock,
    LockFill,
    Unlock,
    UnlockFill,
    Pencil,
    PencilFill,
    Pin,
    PinFill,
    Tag,
    TagFill,
    Trophy,
    TrophyFill,
    Cloud,
    CloudFill,
    Sun,
    Moon,
    Umbrella,
    UmbrellaFill,
    Fire,
    Flower1,
    Tree,
    Bell,
    BellFill,
    Chat,
    ChatFill,
    Envelope,
    EnvelopeFill,
    Telephone,
    TelephoneFill,
    Camera,
    CameraFill,
    Laptop,
    Phone,
    Wifi,
    Person,
    PersonFill,
    People,
    PeopleFill,
    Eye,
    EyeFill,
    Hand,
    Cup,
    CupFill,
    Cart,
    CartFill,
    CreditCard,
    CreditCardFill,
    Graph,
    GraphUp,
    GraphDown,
    Briefcase,
    BriefcaseFill,
    Play,
    PlayFill,
    Pause,
    PauseFill,
    Stop,
    StopFill,
    Music,
    MusicFill,
    Image,
    ImageFill,
    Film,
    Gift,
    GiftFill,
    Balloon,
    BalloonFill,
    Gem,
    Puzzle,
    PuzzleFill,
    Clipboard,
    ClipboardFill,
}

/// The name under which an icon is stored (its variant name).
pub open spec fn card_icon_name(icon: CardIcon) -> Seq<char> {
    match icon {
        CardIcon::Default => "Default"@,
        CardIcon::Star => "Star"@,
        CardIcon::Heart => "Heart"@,
        CardIcon::Circle => "Circle"@,
        CardIcon::Square => "Square"@,
        CardIcon::Triangle => "Triangle"@,
        CardIcon::Check => "Check"@,
        CardIcon::Cross => "Cross"@,
        CardIcon::Question => "Question"@,
        CardIcon::Exclamation => "Exclamation"@,
        CardIcon::Plus => "Plus"@,
        CardIcon::Minus => "Minus"@,
        CardIcon::StarFill => "StarFill"@,
        CardIcon::HeartFill => "HeartFill"@,
        CardIcon::CircleFill => "CircleFill"@,
        CardIcon::SquareFill => "SquareFill"@,
        CardIcon::TriangleFill => "TriangleFill"@,
        CardIcon::Diamond => "Diamond"@,
        CardIcon::DiamondFill => "DiamondFill"@,
        CardIcon::Hexagon => "Hexagon"@,
        CardIcon::HexagonFill => "HexagonFill"@,
        CardIcon::Octagon => "Octagon"@,
        CardIcon::OctagonFill => "OctagonFill"@,
        CardIcon::Pentagon => "Pentagon"@,
        CardIcon::PentagonFill => "PentagonFill"@,
        CardIcon::CheckCircle => "CheckCircle"@,
        CardIcon::CheckCircleFill => "CheckCircleFill"@,
        CardIcon::XCircle => "XCircle"@,
        CardIcon::XCircleFill => "XCircleFill"@,
        CardIcon::InfoCircle => "InfoCircle"@,
        CardIcon::InfoCircleFill => "InfoCircleFill"@,
        CardIcon::ExclamationTriangle => "ExclamationTriangle"@,
        CardIcon::ExclamationTriangleFill => "ExclamationTriangleFill"@,
        CardIcon::ExclamationCircle => "ExclamationCircle"@,
        CardIcon::ExclamationCircleFill => "ExclamationCircleFill"@,
        CardIcon::QuestionCircle => "QuestionCircle"@,
        CardIcon::QuestionCircleFill => "QuestionCircleFill"@,
        CardIcon::PlusCircle => "PlusCircle"@,
        CardIcon::PlusCircleFill => "PlusCircleFill"@,
        CardIcon::DashCircle => "DashCircle"@,
        CardIcon::DashCircleFill => "DashCircleFill"@,
        CardIcon::ArrowUp => "ArrowUp"@,
        CardIcon::ArrowDown => "ArrowDown"@,
        CardIcon::ArrowLeft => "ArrowLeft"@,
        CardIcon::ArrowRight => "ArrowRight"@,
        CardIcon::ArrowUpCircle => "ArrowUpCircle"@,
        CardIcon::ArrowDownCircle => "ArrowDownCircle"@,
        CardIcon::ArrowLeftCircle => "ArrowLeftCircle"@,
        CardIcon::ArrowRightCircle => "ArrowRightCircle"@,
        CardIcon::Book => "Book"@,
        CardIcon::BookFill => "BookFill"@,
        CardIcon::Bookmark => "Bookmark"@,
        CardIcon::BookmarkFill => "BookmarkFill"@,
        CardIcon::Calendar => "Calendar"@,
        CardIcon::CalendarFill => "CalendarFill"@,
        CardIcon::Clock => "Clock"@,
        CardIcon::ClockFill => "ClockFill"@,
        CardIcon::Flag => "Flag"@,
        CardIcon::FlagFill => "FlagFill"@,
        CardIcon::Folder => "Folder"@,
        CardIcon::FolderFill => "FolderFill"@,
        CardIcon::Gear => "Gear"@,
        CardIcon::GearFill => "GearFill"@,
        CardIcon::House => "House"@,
        CardIcon::HouseFill => "HouseFill"@,
        CardIcon::Lightning => "Lightning"@,
        CardIcon::LightningFill => "LightningFill"@,
        CardIcon::Lightbulb => "Lightbulb"@,
        CardIcon::LightbulbFill => "LightbulbFill"@,
        CardIcon::Link => "Link"@,
        CardIcon::Lock => "Lock"@,
        CardIcon::LockFill => "LockFill"@,
        CardIcon::Unlock => "Unlock"@,
        CardIcon::UnlockFill => "UnlockFill"@,
        CardIcon::Pencil => "Pencil"@,
        CardIcon::PencilFill => "PencilFill"@,
        CardIcon::Pin => "Pin"@,
        CardIcon::PinFill => "PinFill"@,
        CardIcon::Tag => "Tag"@,
        CardIcon::TagFill => "TagFill"@,
        CardIcon::Trophy => "Trophy"@,
        CardIcon::TrophyFill => "TrophyFill"@,
        CardIcon::Cloud => "Cloud"@,
        CardIcon::CloudFill => "CloudFill"@,
        CardIcon::Sun => "Sun"@,
        CardIcon::Moon => "Moon"@,
        CardIcon::Umbrella => "Umbrella"@,
        CardIcon::UmbrellaFill => "UmbrellaFill"@,
        CardIcon::Fire => "Fire"@,
        CardIcon::Flower1 => "Flower1"@,
        CardIcon::Tree => "Tree"@,
        CardIcon::Bell => "Bell"@,
        CardIcon::BellFill => "BellFill"@,
        CardIcon::Chat => "Chat"@,
        CardIcon::ChatFill => "ChatFill"@,
        CardIcon::Envelope => "Envelope"@,
        CardIcon::EnvelopeFill => "EnvelopeFill"@,
        CardIcon::Telephone => "Telephone"@,
        CardIcon::TelephoneFill => "TelephoneFill"@,
        CardIcon::Camera => "Camera"@,
        CardIcon::CameraFill => "CameraFill"@,
        CardIcon::Laptop => "Laptop"@,
        CardIcon::Phone => "Phone"@,
        CardIcon::Wifi => "Wifi"@,
        CardIcon::Person => "Person"@,
        CardIcon::PersonFill => "PersonFill"@,
        CardIcon::People => "People"@,
        CardIcon::PeopleFill => "PeopleFill"@,
        CardIcon::Eye => "Eye"@,
        CardIcon::EyeFill => "EyeFill"@,
        CardIcon::Hand => "Hand"@,
        CardIcon::Cup => "Cup"@,
        CardIcon::CupFill => "CupFill"@,
        CardIcon::Cart => "Cart"@,
        CardIcon::CartFill => "CartFill"@,
        CardIcon::CreditCard => "CreditCard"@,
        CardIcon::CreditCardFill => "CreditCardFill"@,
        CardIcon::Graph => "Graph"@,
        CardIcon::GraphUp => "GraphUp"@,
        CardIcon::GraphDown => "GraphDown"@,
        CardIcon::Briefcase => "Briefcase"@,
        CardIcon::BriefcaseFill => "BriefcaseFill"@,
        CardIcon::Play => "Play"@,
        CardIcon::PlayFill => "PlayFill"@,
        CardIcon::Pause => "Pause"@,
        CardIcon::PauseFill => "PauseFill"@,
        CardIcon::Stop => "Stop"@,
        CardIcon::StopFill => "StopFill"@,
        CardIcon::Music => "Music"@,
        CardIcon::MusicFill => "MusicFill"@,
        CardIcon::Image => "Image"@,
        CardIcon::ImageFill => "ImageFill"@,
        CardIcon::Film => "Film"@,
        CardIcon::Gift => "Gift"@,
        CardIcon::GiftFill => "GiftFill"@,
        CardIcon::Balloon => "Balloon"@,
        CardIcon::BalloonFill => "BalloonFill"@,
        CardIcon::Gem => "Gem"@,
        CardIcon::Puzzle => "Puzzle"@,
        CardIcon::PuzzleFill => "PuzzleFill"@,
        CardIcon::Clipboard => "Clipboard"@,
        CardIcon::ClipboardFill => "ClipboardFill"@,
    }
}

/// The character at `i` in `s`, or a space past its end.
pub open spec fn char_or_space(s: Seq<char>, i: int) -> char {
    if 0 <= i < s.len() {
        s[i]
    } else {
        ' '
    }
}

/// A few characters and the length of a stored icon name; no two icon names
/// share them.
pub open spec fn icon_key(s: Seq<char>) -> (int, char, char, char, char) {
    (s.len() as int, char_or_space(s, 0), char_or_space(s, 1), char_or_space(s, 3), char_or_space(s, 5))
}

/// The icon whose name has the key `k`.
pub open spec fn icon_of_key(k: (int, char, char, char, char)) -> CardIcon {
    if k == (7int, 'D', 'e', 'a', 'l') {
        CardIcon::Default
    } else if k == (4int, 'S', 't', 'r', ' ') {
        CardIcon::Star
    } else if k == (5int, 'H', 'e', 'r', ' ') {
        CardIcon::Heart
    } else if k == (6int, 'C', 'i', 'c', 'e') {
        CardIcon::Circle
    } else if k == (6int, 'S', 'q', 'a', 'e') {
        CardIcon::Square
    } else if k == (8int, 'T', 'r', 'a', 'g') {
        CardIcon::Triangle
    } else if k == (5int, 'C', 'h', 'c', ' ') {
        CardIcon::Check
    } else if k == (5int, 'C', 'r', 's', ' ') {
        CardIcon::Cross
    } else if k == (8int, 'Q', 'u', 's', 'i') {
        CardIcon::Question
    } else if k == (11int, 'E', 'x', 'l', 'm') {
        CardIcon::Exclamation
    } else if k == (4int, 'P', 'l', 's', ' ') {
        CardIcon::Plus
    } else if k == (5int, 'M', 'i', 'u', ' ') {
        CardIcon::Minus
    } else if k == (8int, 'S', 't', 'r', 'i') {
        CardIcon::StarFill
    } else if k == (9int, 'H', 'e', 'r', 'F') {
        CardIcon::HeartFill
    } else if k == (10int, 'C', 'i', 'c', 'e') {
        CardIcon::CircleFill
    } else if k == (10int, 'S', 'q', 'a', 'e') {
        CardIcon::SquareFill
    } else if k == (12int, 'T', 'r', 'a', 'g') {
        CardIcon::TriangleFill
    } else if k == (7int, 'D', 'i', 'm', 'n') {
        CardIcon::Diamond
    } else if k == (11int, 'D', 'i', 'm', 'n') {
        CardIcon::DiamondFill
    } else if k == (7int, 'H', 'e', 'a', 'o') {
        CardIcon::Hexagon
    } else if k == (11int, 'H', 'e', 'a', 'o') {
        CardIcon::HexagonFill
    } else if k == (7int, 'O', 'c', 'a', 'o') {
        CardIcon::Octagon
    } else if k == (11int, 'O', 'c', 'a', 'o') {
        CardIcon::OctagonFill
    } else if k == (8int, 'P', 'e', 't', 'g') {
        CardIcon::Pentagon
    } else if k == (12int, 'P', 'e', 't', 'g') {
        CardIcon::PentagonFill
    } else if k == (11int, 'C', 'h', 'c', 'C') {
        CardIcon::CheckCircle
    } else if k == (15int, 'C', 'h', 'c', 'C') {
        CardIcon::CheckCircleFill
    } else if k == (7int, 'X', 'C', 'r', 'l') {
        CardIcon::XCircle
    } else if k == (11int, 'X', 'C', 'r', 'l') {
        CardIcon::XCircleFill
    } else if k == (10int, 'I', 'n', 'o', 'i') {
        CardIcon::InfoCircle
    } else if k == (14int, 'I', 'n', 'o', 'i') {
        CardIcon::InfoCircleFill
    } else if k == (19int, 'E', 'x', 'l', 'm') {
        CardIcon::ExclamationTriangle
    } else if k == (23int, 'E', 'x', 'l', 'm') {
        CardIcon::ExclamationTriangleFill
    } else if k == (17int, 'E', 'x', 'l', 'm') {
        CardIcon::ExclamationCircle
    } else if k == (21int, 'E', 'x', 'l', 'm') {
        CardIcon::ExclamationCircleFill
    } else if k == (14int, 'Q', 'u', 's', 'i') {
        CardIcon::QuestionCircle
    } else if k == (18int, 'Q', 'u', 's', 'i') {
        CardIcon::QuestionCircleFill
    } else if k == (10int, 'P', 'l', 's', 'i') {
        CardIcon::PlusCircle
    } else if k == (14int, 'P', 'l', 's', 'i') {
        CardIcon::PlusCircleFill
    } else if k == (10int, 'D', 'a', 'h', 'i') {
        CardIcon::DashCircle
    } else if k == (14int, 'D', 'a', 'h', 'i') {
        CardIcon::DashCircleFill
    } else if k == (7int, 'A', 'r', 'o', 'U') {
        CardIcon::ArrowUp
    } else if k == (9int, 'A', 'r', 'o', 'D') {
        CardIcon::ArrowDown
    } else if k == (9int, 'A', 'r', 'o', 'L') {
        CardIcon::ArrowLeft
    } else if k == (10int, 'A', 'r', 'o', 'R') {
        CardIcon::ArrowRight
    } else if k == (13int, 'A', 'r', 'o', 'U') {
        CardIcon::ArrowUpCircle
    } else if k == (15int, 'A', 'r', 'o', 'D') {
        CardIcon::ArrowDownCircle
    } else if k == (15int, 'A', 'r', 'o', 'L') {
        CardIcon::ArrowLeftCircle
    } else if k == (16int, 'A', 'r', 'o', 'R') {
        CardIcon::ArrowRightCircle
    } else if k == (4int, 'B', 'o', 'k', ' ') {
        CardIcon::Book
    } else if k == (8int, 'B', 'o', 'k', 'i') {
        CardIcon::BookFill
    } else if k == (8int, 'B', 'o', 'k', 'a') {
        CardIcon::Bookmark
    } else if k == (12int, 'B', 'o', 'k', 'a') {
        CardIcon::BookmarkFill
    } else if k == (8int, 'C', 'a', 'e', 'd') {
        CardIcon::Calendar
    } else if k == (12int, 'C', 'a', 'e', 'd') {
        CardIcon::CalendarFill
    } else if k == (5int, 'C', 'l', 'c', ' ') {
        CardIcon::Clock
    } else if k == (9int, 'C', 'l', 'c', 'F') {
        CardIcon::ClockFill
    } else if k == (4int, 'F', 'l', 'g', ' ') {
        CardIcon::Flag
    } else if k == (8int, 'F', 'l', 'g', 'i') {
        CardIcon::FlagFill
    } else if k == (6int, 'F', 'o', 'd', 'r') {
        CardIcon::Folder
    } else if k == (10int, 'F', 'o', 'd', 'r') {
        CardIcon::FolderFill
    } else if k == (4int, 'G', 'e', 'r', ' ') {
        CardIcon::Gear
    } else if k == (8int, 'G', 'e', 'r', 'i') {
        CardIcon::GearFill
    } else if k == (5int, 'H', 'o', 's', ' ') {
        CardIcon::House
    } else if k == (9int, 'H', 'o', 's', 'F') {
        CardIcon::HouseFill
    } else if k == (9int, 'L', 'i', 'h', 'n') {
        CardIcon::Lightning
    } else if k == (13int, 'L', 'i', 'h', 'n') {
        CardIcon::LightningFill
    } else if k == (9int, 'L', 'i', 'h', 'b') {
        CardIcon::Lightbulb
    } else if k == (13int, 'L', 'i', 'h', 'b') {
        CardIcon::LightbulbFill
    } else if k == (4int, 'L', 'i', 'k', ' ') {
        CardIcon::Link
    } else if k == (4int, 'L', 'o', 'k', ' ') {
        CardIcon::Lock
    } else if k == (8int, 'L', 'o', 'k', 'i') {
        CardIcon::LockFill
    } else if k == (6int, 'U', 'n', 'o', 'k') {
        CardIcon::Unlock
    } else if k == (10int, 'U', 'n', 'o', 'k') {
        CardIcon::UnlockFill
    } else if k == (6int, 'P', 'e', 'c', 'l') {
        CardIcon::Pencil
    } else if k == (10int, 'P', 'e', 'c', 'l') {
        CardIcon::PencilFill
    } else if k == (3int, 'P', 'i', ' ', ' ') {
        CardIcon::Pin
    } else if k == (7int, 'P', 'i', 'F', 'l') {
        CardIcon::PinFill
    } else if k == (3int, 'T', 'a', ' ', ' ') {
        CardIcon::Tag
    } else if k == (7int, 'T', 'a', 'F', 'l') {
        CardIcon::TagFill
    } else if k == (6int, 'T', 'r', 'p', 'y') {
        CardIcon::Trophy
    } else if k == (10int, 'T', 'r', 'p', 'y') {
        CardIcon::TrophyFill
    } else if k == (5int, 'C', 'l', 'u', ' ') {
        CardIcon::Cloud
    } else if k == (9int, 'C', 'l', 'u', 'F') {
        CardIcon::CloudFill
    } else if k == (3int, 'S', 'u', ' ', ' ') {
        CardIcon::Sun
    } else if k == (4int, 'M', 'o', 'n', ' ') {
        CardIcon::Moon
    } else if k == (8int, 'U', 'm', 'r', 'l') {
        CardIcon::Umbrella
    } else if k == (12int, 'U', 'm', 'r', 'l') {
        CardIcon::UmbrellaFill
    } else if k == (4int, 'F', 'i', 'e', ' ') {
        CardIcon::Fire
    } else if k == (7int, 'F', 'l', 'w', 'r') {
        CardIcon::Flower1
    } else if k == (4int, 'T', 'r', 'e', ' ') {
        CardIcon::Tree
    } else if k == (4int, 'B', 'e', 'l', ' ') {
        CardIcon::Bell
    } else if k == (8int, 'B', 'e', 'l', 'i') {
        CardIcon::BellFill
    } else if k == (4int, 'C', 'h', 't', ' ') {
        CardIcon::Chat
    } else if k == (8int, 'C', 'h', 't', 'i') {
        CardIcon::ChatFill
    } else if k == (8int, 'E', 'n', 'e', 'o') {
        CardIcon::Envelope
    } else if k == (12int, 'E', 'n', 'e', 'o') {
        CardIcon::EnvelopeFill
    } else if k == (9int, 'T', 'e', 'e', 'h') {
        CardIcon::Telephone
    } else if k == (13int, 'T', 'e', 'e', 'h') {
        CardIcon::TelephoneFill
    } else if k == (6int, 'C', 'a', 'e', 'a') {
        CardIcon::Camera
    } else if k == (10int, 'C', 'a', 'e', 'a') {
        CardIcon::CameraFill
    } else if k == (6int, 'L', 'a', 't', 'p') {
        CardIcon::Laptop
    } else if k == (5int, 'P', 'h', 'n', ' ') {
        CardIcon::Phone
    } else if k == (4int, 'W', 'i', 'i', ' ') {
        CardIcon::Wifi
    } else if k == (6int, 'P', 'e', 's', 'n') {
        CardIcon::Person
    } else if k == (10int, 'P', 'e', 's', 'n') {
        CardIcon::PersonFill
    } else if k == (6int, 'P', 'e', 'p', 'e') {
        CardIcon::People
    } else if k == (10int, 'P', 'e', 'p', 'e') {
        CardIcon::PeopleFill
    } else if k == (3int, 'E', 'y', ' ', ' ') {
        CardIcon::Eye
    } else if k == (7int, 'E', 'y', 'F', 'l') {
        CardIcon::EyeFill
    } else if k == (4int, 'H', 'a', 'd', ' ') {
        CardIcon::Hand
    } else if k == (3int, 'C', 'u', ' ', ' ') {
        CardIcon::Cup
    } else if k == (7int, 'C', 'u', 'F', 'l') {
        CardIcon::CupFill
    } else if k == (4int, 'C', 'a', 't', ' ') {
        CardIcon::Cart
    } else if k == (8int, 'C', 'a', 't', 'i') {
        CardIcon::CartFill
    } else if k == (10int, 'C', 'r', 'd', 't') {
        CardIcon::CreditCard
    } else if k == (14int, 'C', 'r', 'd', 't') {
        CardIcon::CreditCardFill
    } else if k == (5int, 'G', 'r', 'p', ' ') {
        CardIcon::Graph
    } else if k == (7int, 'G', 'r', 'p', 'U') {
        CardIcon::GraphUp
    } else if k == (9int, 'G', 'r', 'p', 'D') {
        CardIcon::GraphDown
    } else if k == (9int, 'B', 'r', 'e', 'c') {
        CardIcon::Briefcase
    } else if k == (13int, 'B', 'r', 'e', 'c') {
        CardIcon::BriefcaseFill
    } else if k == (4int, 'P', 'l', 'y', ' ') {
        CardIcon::Play
    } else if k == (8int, 'P', 'l', 'y', 'i') {
        CardIcon::PlayFill
    } else if k == (5int, 'P', 'a', 's', ' ') {
        CardIcon::Pause
    } else if k == (9int, 'P', 'a', 's', 'F') {
        CardIcon::PauseFill
    } else if k == (4int, 'S', 't', 'p', ' ') {
        CardIcon::Stop
    } else if k == (8int, 'S', 't', 'p', 'i') {
        CardIcon::StopFill
    } else if k == (5int, 'M', 'u', 'i', ' ') {
        CardIcon::Music
    } else if k == (9int, 'M', 'u', 'i', 'F') {
        CardIcon::MusicFill
    } else if k == (5int, 'I', 'm', 'g', ' ') {
        CardIcon::Image
    } else if k == (9int, 'I', 'm', 'g', 'F') {
        CardIcon::ImageFill
    } else if k == (4int, 'F', 'i', 'm', ' ') {
        CardIcon::Film
    } else if k == (4int, 'G', 'i', 't', ' ') {
        CardIcon::Gift
    } else if k == (8int, 'G', 'i', 't', 'i') {
        CardIcon::GiftFill
    } else if k == (7int, 'B', 'a', 'l', 'o') {
        CardIcon::Balloon
    } else if k == (11int, 'B', 'a', 'l', 'o') {
        CardIcon::BalloonFill
    } else if k == (3int, 'G', 'e', ' ', ' ') {
        CardIcon::Gem
    } else if k == (6int, 'P', 'u', 'z', 'e') {
        CardIcon::Puzzle
    } else if k == (10int, 'P', 'u', 'z', 'e') {
        CardIcon::PuzzleFill
    } else if k == (9int, 'C', 'l', 'p', 'o') {
        CardIcon::Clipboard
    } else if k == (13int, 'C', 'l', 'p', 'o') {
        CardIcon::ClipboardFill
    } else {
        CardIcon::Default
    }
}

/// Each icon is found again from the key of its name.
proof fn lemma_icon_key_inverts(i: CardIcon)
    ensures
        icon_of_key(icon_key(card_icon_name(i))) == i,
{
    match i {
        CardIcon::Default => {
            reveal_strlit("Default");
        },
        CardIcon::Star => {
            reveal_strlit("Star");
        },
        CardIcon::Heart => {
            reveal_strlit("Heart");
        },
        CardIcon::Circle => {
            reveal_strlit("Circle");
        },
        CardIcon::Square => {
            reveal_strlit("Square");
        },
        CardIcon::Triangle => {
            reveal_strlit("Triangle");
        },
        CardIcon::Check => {
            reveal_strlit("Check");
        },
        CardIcon::Cross => {
            reveal_strlit("Cross");
        },
        CardIcon::Question => {
            reveal_strlit("Question");
        },
        CardIcon::Exclamation => {
            reveal_strlit("Exclamation");
        },
        CardIcon::Plus => {
            reveal_strlit("Plus");
        },
        CardIcon::Minus => {
            reveal_strlit("Minus");
        },
        CardIcon::StarFill => {
            reveal_strlit("StarFill");
        },
        CardIcon::HeartFill => {
            reveal_strlit("HeartFill");
        },
        CardIcon::CircleFill => {
            reveal_strlit("CircleFill");
        },
        CardIcon::SquareFill => {
            reveal_strlit("SquareFill");
        },
        CardIcon::TriangleFill => {
            reveal_strlit("TriangleFill");
        },
        CardIcon::Diamond => {
            reveal_strlit("Diamond");
        },
        CardIcon::DiamondFill => {
            reveal_strlit("DiamondFill");
        },
        CardIcon::Hexagon => {
            reveal_strlit("Hexagon");
        },
        CardIcon::HexagonFill => {
            reveal_strlit("HexagonFill");
        },
        CardIcon::Octagon => {
            reveal_strlit("Octagon");
        },
        CardIcon::OctagonFill => {
            reveal_strlit("OctagonFill");
        },
        CardIcon::Pentagon => {
            reveal_strlit("Pentagon");
        },
        CardIcon::PentagonFill => {
            reveal_strlit("PentagonFill");
        },
        CardIcon::CheckCircle => {
            reveal_strlit("CheckCircle");
        },
        CardIcon::CheckCircleFill => {
            reveal_strlit("CheckCircleFill");
        },
        CardIcon::XCircle => {
            reveal_strlit("XCircle");
        },
        CardIcon::XCircleFill => {
            reveal_strlit("XCircleFill");
        },
        CardIcon::InfoCircle => {
            reveal_strlit("InfoCircle");
        },
        CardIcon::InfoCircleFill => {
            reveal_strlit("InfoCircleFill");
        },
        CardIcon::ExclamationTriangle => {
            reveal_strlit("ExclamationTriangle");
        },
        CardIcon::ExclamationTriangleFill => {
            reveal_strlit("ExclamationTriangleFill");
        },
        CardIcon::ExclamationCircle => {
            reveal_strlit("ExclamationCircle");
        },
        CardIcon::ExclamationCircleFill => {
            reveal_strlit("ExclamationCircleFill");
        },
        CardIcon::QuestionCircle => {
            reveal_strlit("QuestionCircle");
        },
        CardIcon::QuestionCircleFill => {
            reveal_strlit("QuestionCircleFill");
        },
        CardIcon::PlusCircle => {
            reveal_strlit("PlusCircle");
        },
        CardIcon::PlusCircleFill => {
            reveal_strlit("PlusCircleFill");
        },
        CardIcon::DashCircle => {
            reveal_strlit("DashCircle");
        },
        CardIcon::DashCircleFill => {
            reveal_strlit("DashCircleFill");
        },
        CardIcon::ArrowUp => {
            reveal_strlit("ArrowUp");
        },
        CardIcon::ArrowDown => {
            reveal_strlit("ArrowDown");
        },
        CardIcon::ArrowLeft => {
            reveal_strlit("ArrowLeft");
        },
        CardIcon::ArrowRight => {
            reveal_strlit("ArrowRight");
        },
        CardIcon::ArrowUpCircle => {
            reveal_strlit("ArrowUpCircle");
        },
        CardIcon::ArrowDownCircle => {
            reveal_strlit("ArrowDownCircle");
        },
        CardIcon::ArrowLeftCircle => {
            reveal_strlit("ArrowLeftCircle");
        },
        CardIcon::ArrowRightCircle => {
            reveal_strlit("ArrowRightCircle");
        },
        CardIcon::Book => {
            reveal_strlit("Book");
        },
        CardIcon::BookFill => {
            reveal_strlit("BookFill");
        },
        CardIcon::Bookmark => {
            reveal_strlit("Bookmark");
        },
        CardIcon::BookmarkFill => {
            reveal_strlit("BookmarkFill");
        },
        CardIcon::Calendar => {
            reveal_strlit("Calendar");
        },
        CardIcon::CalendarFill => {
            reveal_strlit("CalendarFill");
        },
        CardIcon::Clock => {
            reveal_strlit("Clock");
        },
        CardIcon::ClockFill => {
            reveal_strlit("ClockFill");
        },
        CardIcon::Flag => {
            reveal_strlit("Flag");
        },
        CardIcon::FlagFill => {
            reveal_strlit("FlagFill");
        },
        CardIcon::Folder => {
            reveal_strlit("Folder");
        },
        CardIcon::FolderFill => {
            reveal_strlit("FolderFill");
        },
        CardIcon::Gear => {
            reveal_strlit("Gear");
        },
        CardIcon::GearFill => {
            reveal_strlit("GearFill");
        },
        CardIcon::House => {
            reveal_strlit("House");
        },
        CardIcon::HouseFill => {
            reveal_strlit("HouseFill");
        },
        CardIcon::Lightning => {
            reveal_strlit("Lightning");
        },
        CardIcon::LightningFill => {
            reveal_strlit("LightningFill");
        },
        CardIcon::Lightbulb => {
            reveal_strlit("Lightbulb");
        },
        CardIcon::LightbulbFill => {
            reveal_strlit("LightbulbFill");
        },
        CardIcon::Link => {
            reveal_strlit("Link");
        },
        CardIcon::Lock => {
            reveal_strlit("Lock");
        },
        CardIcon::LockFill => {
            reveal_strlit("LockFill");
        },
        CardIcon::Unlock => {
            reveal_strlit("Unlock");
        },
        CardIcon::UnlockFill => {
            reveal_strlit("UnlockFill");
        },
        CardIcon::Pencil => {
            reveal_strlit("Pencil");
        },
        CardIcon::PencilFill => {
            reveal_strlit("PencilFill");
        },
        CardIcon::Pin => {
            reveal_strlit("Pin");
        },
        CardIcon::PinFill => {
            reveal_strlit("PinFill");
        },
        CardIcon::Tag => {
            reveal_strlit("Tag");
        },
        CardIcon::TagFill => {
            reveal_strlit("TagFill");
        },
        CardIcon::Trophy => {
            reveal_strlit("Trophy");
        },
        CardIcon::TrophyFill => {
            reveal_strlit("TrophyFill");
        },
        CardIcon::Cloud => {
            reveal_strlit("Cloud");
        },
        CardIcon::CloudFill => {
            reveal_strlit("CloudFill");
        },
        CardIcon::Sun => {
            reveal_strlit("Sun");
        },
        CardIcon::Moon => {
            reveal_strlit("Moon");
        },
        CardIcon::Umbrella => {
            reveal_strlit("Umbrella");
        },
        CardIcon::UmbrellaFill => {
            reveal_strlit("UmbrellaFill");
        },
        CardIcon::Fire => {
            reveal_strlit("Fire");
        },
        CardIcon::Flower1 => {
            reveal_strlit("Flower1");
        },
        CardIcon::Tree => {
            reveal_strlit("Tree");
        },
        CardIcon::Bell => {
            reveal_strlit("Bell");
        },
        CardIcon::BellFill => {
            reveal_strlit("BellFill");
        },
        CardIcon::Chat => {
            reveal_strlit("Chat");
        },
        CardIcon::ChatFill => {
            reveal_strlit("ChatFill");
        },
        CardIcon::Envelope => {
            reveal_strlit("Envelope");
        },
        CardIcon::EnvelopeFill => {
            reveal_strlit("EnvelopeFill");
        },
        CardIcon::Telephone => {
            reveal_strlit("Telephone");
        },
        CardIcon::TelephoneFill => {
            reveal_strlit("TelephoneFill");
        },
        CardIcon::Camera => {
            reveal_strlit("Camera");
        },
        CardIcon::CameraFill => {
            reveal_strlit("CameraFill");
        },
        CardIcon::Laptop => {
            reveal_strlit("Laptop");
        },
        CardIcon::Phone => {
            reveal_strlit("Phone");
        },
        CardIcon::Wifi => {
            reveal_strlit("Wifi");
        },
        CardIcon::Person => {
            reveal_strlit("Person");
        },
        CardIcon::PersonFill => {
            reveal_strlit("PersonFill");
        },
        CardIcon::People => {
            reveal_strlit("People");
        },
        CardIcon::PeopleFill => {
            reveal_strlit("PeopleFill");
        },
        CardIcon::Eye => {
            reveal_strlit("Eye");
        },
        CardIcon::EyeFill => {
            reveal_strlit("EyeFill");
        },
        CardIcon::Hand => {
            reveal_strlit("Hand");
        },
        CardIcon::Cup => {
            reveal_strlit("Cup");
        },
        CardIcon::CupFill => {
            reveal_strlit("CupFill");
        },
        CardIcon::Cart => {
            reveal_strlit("Cart");
        },
        CardIcon::CartFill => {
            reveal_strlit("CartFill");
        },
        CardIcon::CreditCard => {
            reveal_strlit("CreditCard");
        },
        CardIcon::CreditCardFill => {
            reveal_strlit("CreditCardFill");
        },
        CardIcon::Graph => {
            reveal_strlit("Graph");
        },
        CardIcon::GraphUp => {
            reveal_strlit("GraphUp");
        },
        CardIcon::GraphDown => {
            reveal_strlit("GraphDown");
        },
        CardIcon::Briefcase => {
            reveal_strlit("Briefcase");
        },
        CardIcon::BriefcaseFill => {
            reveal_strlit("BriefcaseFill");
        },
        CardIcon::Play => {
            reveal_strlit("Play");
        },
        CardIcon::PlayFill => {
            reveal_strlit("PlayFill");
        },
        CardIcon::Pause => {
            reveal_strlit("Pause");
        },
        CardIcon::PauseFill => {
            reveal_strlit("PauseFill");
        },
        CardIcon::Stop => {
            reveal_strlit("Stop");
        },
        CardIcon::StopFill => {
            reveal_strlit("StopFill");
        },
        CardIcon::Music => {
            reveal_strlit("Music");
        },
        CardIcon::MusicFill => {
            reveal_strlit("MusicFill");
        },
        CardIcon::Image => {
            reveal_strlit("Image");
        },
        CardIcon::ImageFill => {
            reveal_strlit("ImageFill");
        },
        CardIcon::Film => {
            reveal_strlit("Film");
        },
        CardIcon::Gift => {
            reveal_strlit("Gift");
        },
        CardIcon::GiftFill => {
            reveal_strlit("GiftFill");
        },
        CardIcon::Balloon => {
            reveal_strlit("Balloon");
        },
        CardIcon::BalloonFill => {
            reveal_strlit("BalloonFill");
        },
        CardIcon::Gem => {
            reveal_strlit("Gem");
        },
        CardIcon::Puzzle => {
            reveal_strlit("Puzzle");
        },
        CardIcon::PuzzleFill => {
            reveal_strlit("PuzzleFill");
        },
        CardIcon::Clipboard => {
            reveal_strlit("Clipboard");
        },
        CardIcon::ClipboardFill => {
            reveal_strlit("ClipboardFill");
        },
    }
}

/// No two icons are stored under the same name, so the name stored for an
/// icon reads back as that icon.
pub proof fn law_icon_names_distinct(a: CardIcon, b: CardIcon)
    ensures
        card_icon_name(a) == card_icon_name(b) ==> a == b,
{
    lemma_icon_key_inverts(a);
    lemma_icon_key_inverts(b);
}

/// Some icon is stored under `name`.
pub open spec fn is_icon_name(name: Seq<char>) -> bool {
    exists|icon: CardIcon| card_icon_name(icon) == name
}

impl CardIcon {
    /// The name under which the icon is stored (its variant name).
    pub fn name(&self) -> (r: &'static str)
        ensures
            r@ == card_icon_name(*self),
    {
        match self {
            CardIcon::Default => "Default",
            CardIcon::Star => "Star",
            CardIcon::Heart => "Heart",
            CardIcon::Circle => "Circle",
            CardIcon::Square => "Square",
            CardIcon::Triangle => "Triangle",
            CardIcon::Check => "Check",
            CardIcon::Cross => "Cross",
            CardIcon::Question => "Question",
            CardIcon::Exclamation => "Exclamation",
            CardIcon::Plus => "Plus",
            CardIcon::Minus => "Minus",
            CardIcon::StarFill => "StarFill",
            CardIcon::HeartFill => "HeartFill",
            CardIcon::CircleFill => "CircleFill",
            CardIcon::SquareFill => "SquareFill",
            CardIcon::TriangleFill => "TriangleFill",
            CardIcon::Diamond => "Diamond",
            CardIcon::DiamondFill => "DiamondFill",
            CardIcon::Hexagon => "Hexagon",
            CardIcon::HexagonFill => "HexagonFill",
            CardIcon::Octagon => "Octagon",
            CardIcon::OctagonFill => "OctagonFill",
            CardIcon::Pentagon => "Pentagon",
            CardIcon::PentagonFill => "PentagonFill",
            CardIcon::CheckCircle => "CheckCircle",
            CardIcon::CheckCircleFill => "CheckCircleFill",
            CardIcon::XCircle => "XCircle",
            CardIcon::XCircleFill => "XCircleFill",
            CardIcon::InfoCircle => "InfoCircle",
            CardIcon::InfoCircleFill => "InfoCircleFill",
            CardIcon::ExclamationTriangle => "ExclamationTriangle",
            CardIcon::ExclamationTriangleFill => "ExclamationTriangleFill",
            CardIcon::ExclamationCircle => "ExclamationCircle",
            CardIcon::ExclamationCircleFill => "ExclamationCircleFill",
            CardIcon::QuestionCircle => "QuestionCircle",
            CardIcon::QuestionCircleFill => "QuestionCircleFill",
            CardIcon::PlusCircle => "PlusCircle",
            CardIcon::PlusCircleFill => "PlusCircleFill",
            CardIcon::DashCircle => "DashCircle",
            CardIcon::DashCircleFill => "DashCircleFill",
            CardIcon::ArrowUp => "ArrowUp",
            CardIcon::ArrowDown => "ArrowDown",
            CardIcon::ArrowLeft => "ArrowLeft",
            CardIcon::ArrowRight => "ArrowRight",
            CardIcon::ArrowUpCircle => "ArrowUpCircle",
            CardIcon::ArrowDownCircle => "ArrowDownCircle",
            CardIcon::ArrowLeftCircle => "ArrowLeftCircle",
            CardIcon::ArrowRightCircle => "ArrowRightCircle",
            CardIcon::Book => "Book",
            CardIcon::BookFill => "BookFill",
            CardIcon::Bookmark => "Bookmark",
            CardIcon::BookmarkFill => "BookmarkFill",
            CardIcon::Calendar => "Calendar",
            CardIcon::CalendarFill => "CalendarFill",
            CardIcon::Clock => "Clock",
            CardIcon::ClockFill => "ClockFill",
            CardIcon::Flag => "Flag",
            CardIcon::FlagFill => "FlagFill",
            CardIcon::Folder => "Folder",
            CardIcon::FolderFill => "FolderFill",
            CardIcon::Gear => "Gear",
            CardIcon::GearFill => "GearFill",
            CardIcon::House => "House",
            CardIcon::HouseFill => "HouseFill",
            CardIcon::Lightning => "Lightning",
            CardIcon::LightningFill => "LightningFill",
            CardIcon::Lightbulb => "Lightbulb",
            CardIcon::LightbulbFill => "LightbulbFill",
            CardIcon::Link => "Link",
            CardIcon::Lock => "Lock",
            CardIcon::LockFill => "LockFill",
            CardIcon::Unlock => "Unlock",
            CardIcon::UnlockFill => "UnlockFill",
            CardIcon::Pencil => "Pencil",
            CardIcon::PencilFill => "PencilFill",
            CardIcon::Pin => "Pin",
            CardIcon::PinFill => "PinFill",
            CardIcon::Tag => "Tag",
            CardIcon::TagFill => "TagFill",
            CardIcon::Trophy => "Trophy",
            CardIcon::TrophyFill => "TrophyFill",
            CardIcon::Cloud => "Cloud",
            CardIcon::CloudFill => "CloudFill",
            CardIcon::Sun => "Sun",
            CardIcon::Moon => "Moon",
            CardIcon::Umbrella => "Umbrella",
            CardIcon::UmbrellaFill => "UmbrellaFill",
            CardIcon::Fire => "Fire",
            CardIcon::Flower1 => "Flower1",
            CardIcon::Tree => "Tree",
            CardIcon::Bell => "Bell",
            CardIcon::BellFill => "BellFill",
            CardIcon::Chat => "Chat",
            CardIcon::ChatFill => "ChatFill",
            CardIcon::Envelope => "Envelope",
            CardIcon::EnvelopeFill => "EnvelopeFill",
            CardIcon::Telephone => "Telephone",
            CardIcon::TelephoneFill => "TelephoneFill",
            CardIcon::Camera => "Camera",
            CardIcon::CameraFill => "CameraFill",
            CardIcon::Laptop => "Laptop",
            CardIcon::Phone => "Phone",
            CardIcon::Wifi => "Wifi",
            CardIcon::Person => "Person",
            CardIcon::PersonFill => "PersonFill",
            CardIcon::People => "People",
            CardIcon::PeopleFill => "PeopleFill",
            CardIcon::Eye => "Eye",
            CardIcon::EyeFill => "EyeFill",
            CardIcon::Hand => "Hand",
            CardIcon::Cup => "Cup",
            CardIcon::CupFill => "CupFill",
            CardIcon::Cart => "Cart",
            CardIcon::CartFill => "CartFill",
            CardIcon::CreditCard => "CreditCard",
            CardIcon::CreditCardFill => "CreditCardFill",
            CardIcon::Graph => "Graph",
            CardIcon::GraphUp => "GraphUp",
            CardIcon::GraphDown => "GraphDown",
            CardIcon::Briefcase => "Briefcase",
            CardIcon::BriefcaseFill => "BriefcaseFill",
            CardIcon::Play => "Play",
            CardIcon::PlayFill => "PlayFill",
            CardIcon::Pause => "Pause",
            CardIcon::PauseFill => "PauseFill",
            CardIcon::Stop => "Stop",
            CardIcon::StopFill => "StopFill",
            CardIcon::Music => "Music",
            CardIcon::MusicFill => "MusicFill",
            CardIcon::Image => "Image",
            CardIcon::ImageFill => "ImageFill",
            CardIcon::Film => "Film",
            CardIcon::Gift => "Gift",
            CardIcon::GiftFill => "GiftFill",
            CardIcon::Balloon => "Balloon",
            CardIcon::BalloonFill => "BalloonFill",
            CardIcon::Gem => "Gem",
            CardIcon::Puzzle => "Puzzle",
            CardIcon::PuzzleFill => "PuzzleFill",
            CardIcon::Clipboard => "Clipboard",
            CardIcon::ClipboardFill => "ClipboardFill",
        }
    }
}

/// Parse a `CardIcon` variant name (produced by `{:?}`) back to the enum value.
/// An unknown name (an icon added in a newer version) gives `Default`.
pub fn parse_card_icon(name: &str) -> (r: CardIcon)
    ensures
        is_icon_name(name@) ==> card_icon_name(r) == name@,
        forall|icon: CardIcon| #[trigger] card_icon_name(icon) == name@ ==> r == icon,
        !is_icon_name(name@) ==> r == CardIcon::Default,
{
    let r = lookup_icon(name);
    assert forall|icon: CardIcon| #[trigger] card_icon_name(icon) == name@ implies r == icon by {
        law_icon_names_distinct(r, icon);
    }
    r
}

/// The icon stored under `name`, tried name by name.
fn lookup_icon(name: &str) -> (r: CardIcon)
    ensures
        is_icon_name(name@) ==> card_icon_name(r) == name@,
        !is_icon_name(name@) ==> r == CardIcon::Default,
{
    let v = chars_of(name);
    if chars_eq_str(&v, "Default") {
        assert(card_icon_name(CardIcon::Default) == name@);
        return CardIcon::Default;
    }
    if chars_eq_str(&v, "Star") {
        assert(card_icon_name(CardIcon::Star) == name@);
        return CardIcon::Star;
    }
    if chars_eq_str(&v, "Heart") {
        assert(card_icon_name(CardIcon::Heart) == name@);
        return CardIcon::Heart;
    }
    if chars_eq_str(&v, "Circle") {
        assert(card_icon_name(CardIcon::Circle) == name@);
        return CardIcon::Circle;
    }
    if chars_eq_str(&v, "Square") {
        assert(card_icon_name(CardIcon::Square) == name@);
        return CardIcon::Square;
    }
    if chars_eq_str(&v, "Triangle") {
        assert(card_icon_name(CardIcon::Triangle) == name@);
        return CardIcon::Triangle;
    }
    if chars_eq_str(&v, "Check") {
        assert(card_icon_name(CardIcon::Check) == name@);
        return CardIcon::Check;
    }
    if chars_eq_str(&v, "Cross") {
        assert(card_icon_name(CardIcon::Cross) == name@);
        return CardIcon::Cross;
    }
    if chars_eq_str(&v, "Question") {
        assert(card_icon_name(CardIcon::Question) == name@);
        return CardIcon::Question;
    }
    if chars_eq_str(&v, "Exclamation") {
        assert(card_icon_name(CardIcon::Exclamation) == name@);
        return CardIcon::Exclamation;
    }
    if chars_eq_str(&v, "Plus") {
        assert(card_icon_name(CardIcon::Plus) == name@);
        return CardIcon::Plus;
    }
    if chars_eq_str(&v, "Minus") {
        assert(card_icon_name(CardIcon::Minus) == name@);
        return CardIcon::Minus;
    }
    if chars_eq_str(&v, "StarFill") {
        assert(card_icon_name(CardIcon::StarFill) == name@);
        return CardIcon::StarFill;
    }
    if chars_eq_str(&v, "HeartFill") {
        assert(card_icon_name(CardIcon::HeartFill) == name@);
        return CardIcon::HeartFill;
    }
    if chars_eq_str(&v, "CircleFill") {
        assert(card_icon_name(CardIcon::CircleFill) == name@);
        return CardIcon::CircleFill;
    }
    if chars_eq_str(&v, "SquareFill") {
        assert(card_icon_name(CardIcon::SquareFill) == name@);
        return CardIcon::SquareFill;
    }
    if chars_eq_str(&v, "TriangleFill") {
        assert(card_icon_name(CardIcon::TriangleFill) == name@);
        return CardIcon::TriangleFill;
    }
    if chars_eq_str(&v, "Diamond") {
        assert(card_icon_name(CardIcon::Diamond) == name@);
        return CardIcon::Diamond;
    }
    if chars_eq_str(&v, "DiamondFill") {
        assert(card_icon_name(CardIcon::DiamondFill) == name@);
        return CardIcon::DiamondFill;
    }
    if chars_eq_str(&v, "Hexagon") {
        assert(card_icon_name(CardIcon::Hexagon) == name@);
        return CardIcon::Hexagon;
    }
    if chars_eq_str(&v, "HexagonFill") {
        assert(card_icon_name(CardIcon::HexagonFill) == name@);
        return CardIcon::HexagonFill;
    }
    if chars_eq_str(&v, "Octagon") {
        assert(card_icon_name(CardIcon::Octagon) == name@);
        return CardIcon::Octagon;
    }
    if chars_eq_str(&v, "OctagonFill") {
        assert(card_icon_name(CardIcon::OctagonFill) == name@);
        return CardIcon::OctagonFill;
    }
    if chars_eq_str(&v, "Pentagon") {
        assert(card_icon_name(CardIcon::Pentagon) == name@);
        return CardIcon::Pentagon;
    }
    if chars_eq_str(&v, "PentagonFill") {
        assert(card_icon_name(CardIcon::PentagonFill) == name@);
        return CardIcon::PentagonFill;
    }
    if chars_eq_str(&v, "CheckCircle") {
        assert(card_icon_name(CardIcon::CheckCircle) == name@);
        return CardIcon::CheckCircle;
    }
    if chars_eq_str(&v, "CheckCircleFill") {
        assert(card_icon_name(CardIcon::CheckCircleFill) == name@);
        return CardIcon::CheckCircleFill;
    }
    if chars_eq_str(&v, "XCircle") {
        assert(card_icon_name(CardIcon::XCircle) == name@);
        return CardIcon::XCircle;
    }
    if chars_eq_str(&v, "XCircleFill") {
        assert(card_icon_name(CardIcon::XCircleFill) == name@);
        return CardIcon::XCircleFill;
    }
    if chars_eq_str(&v, "InfoCircle") {
        assert(card_icon_name(CardIcon::InfoCircle) == name@);
        return CardIcon::InfoCircle;
    }
    if chars_eq_str(&v, "InfoCircleFill") {
        assert(card_icon_name(CardIcon::InfoCircleFill) == name@);
        return CardIcon::InfoCircleFill;
    }
    if chars_eq_str(&v, "ExclamationTriangle") {
        assert(card_icon_name(CardIcon::ExclamationTriangle) == name@);
        return CardIcon::ExclamationTriangle;
    }
    if chars_eq_str(&v, "ExclamationTriangleFill") {
        assert(card_icon_name(CardIcon::ExclamationTriangleFill) == name@);
        return CardIcon::ExclamationTriangleFill;
    }
    if chars_eq_str(&v, "ExclamationCircle") {
        assert(card_icon_name(CardIcon::ExclamationCircle) == name@);
        return CardIcon::ExclamationCircle;
    }
    if chars_eq_str(&v, "ExclamationCircleFill") {
        assert(card_icon_name(CardIcon::ExclamationCircleFill) == name@);
        return CardIcon::ExclamationCircleFill;
    }
    if chars_eq_str(&v, "QuestionCircle") {
        assert(card_icon_name(CardIcon::QuestionCircle) == name@);
        return CardIcon::QuestionCircle;
    }
    if chars_eq_str(&v, "QuestionCircleFill") {
        assert(card_icon_name(CardIcon::QuestionCircleFill) == name@);
        return CardIcon::QuestionCircleFill;
    }
    if chars_eq_str(&v, "PlusCircle") {
        assert(card_icon_name(CardIcon::PlusCircle) == name@);
        return CardIcon::PlusCircle;
    }
    if chars_eq_str(&v, "PlusCircleFill") {
        assert(card_icon_name(CardIcon::PlusCircleFill) == name@);
        return CardIcon::PlusCircleFill;
    }
    if chars_eq_str(&v, "DashCircle") {
        assert(card_icon_name(CardIcon::DashCircle) == name@);
        return CardIcon::DashCircle;
    }
    if chars_eq_str(&v, "DashCircleFill") {
        assert(card_icon_name(CardIcon::DashCircleFill) == name@);
        return CardIcon::DashCircleFill;
    }
    if chars_eq_str(&v, "ArrowUp") {
        assert(card_icon_name(CardIcon::ArrowUp) == name@);
        return CardIcon::ArrowUp;
    }
    if chars_eq_str(&v, "ArrowDown") {
        assert(card_icon_name(CardIcon::ArrowDown) == name@);
        return CardIcon::ArrowDown;
    }
    if chars_eq_str(&v, "ArrowLeft") {
        assert(card_icon_name(CardIcon::ArrowLeft) == name@);
        return CardIcon::ArrowLeft;
    }
    if chars_eq_str(&v, "ArrowRight") {
        assert(card_icon_name(CardIcon::ArrowRight) == name@);
        return CardIcon::ArrowRight;
    }
    if chars_eq_str(&v, "ArrowUpCircle") {
        assert(card_icon_name(CardIcon::ArrowUpCircle) == name@);
        return CardIcon::ArrowUpCircle;
    }
    if chars_eq_str(&v, "ArrowDownCircle") {
        assert(card_icon_name(CardIcon::ArrowDownCircle) == name@);
        return CardIcon::ArrowDownCircle;
    }
    if chars_eq_str(&v, "ArrowLeftCircle") {
        assert(card_icon_name(CardIcon::ArrowLeftCircle) == name@);
        return CardIcon::ArrowLeftCircle;
    }
    if chars_eq_str(&v, "ArrowRightCircle") {
        assert(card_icon_name(CardIcon::ArrowRightCircle) == name@);
        return CardIcon::ArrowRightCircle;
    }
    if chars_eq_str(&v, "Book") {
        assert(card_icon_name(CardIcon::Book) == name@);
        return CardIcon::Book;
    }
    if chars_eq_str(&v, "BookFill") {
        assert(card_icon_name(CardIcon::BookFill) == name@);
        return CardIcon::BookFill;
    }
    if chars_eq_str(&v, "Bookmark") {
        assert(card_icon_name(CardIcon::Bookmark) == name@);
        return CardIcon::Bookmark;
    }
    if chars_eq_str(&v, "BookmarkFill") {
        assert(card_icon_name(CardIcon::BookmarkFill) == name@);
        return CardIcon::BookmarkFill;
    }
    if chars_eq_str(&v, "Calendar") {
        assert(card_icon_name(CardIcon::Calendar) == name@);
        return CardIcon::Calendar;
    }
    if chars_eq_str(&v, "CalendarFill") {
        assert(card_icon_name(CardIcon::CalendarFill) == name@);
        return CardIcon::CalendarFill;
    }
    if chars_eq_str(&v, "Clock") {
        assert(card_icon_name(CardIcon::Clock) == name@);
        return CardIcon::Clock;
    }
    if chars_eq_str(&v, "ClockFill") {
        assert(card_icon_name(CardIcon::ClockFill) == name@);
        return CardIcon::ClockFill;
    }
    if chars_eq_str(&v, "Flag") {
        assert(card_icon_name(CardIcon::Flag) == name@);
        return CardIcon::Flag;
    }
    if chars_eq_str(&v, "FlagFill") {
        assert(card_icon_name(CardIcon::FlagFill) == name@);
        return CardIcon::FlagFill;
    }
    if chars_eq_str(&v, "Folder") {
        assert(card_icon_name(CardIcon::Folder) == name@);
        return CardIcon::Folder;
    }
    if chars_eq_str(&v, "FolderFill") {
        assert(card_icon_name(CardIcon::FolderFill) == name@);
        return CardIcon::FolderFill;
    }
    if chars_eq_str(&v, "Gear") {
        assert(card_icon_name(CardIcon::Gear) == name@);
        return CardIcon::Gear;
    }
    if chars_eq_str(&v, "GearFill") {
        assert(card_icon_name(CardIcon::GearFill) == name@);
        return CardIcon::GearFill;
    }
    if chars_eq_str(&v, "House") {
        assert(card_icon_name(CardIcon::House) == name@);
        return CardIcon::House;
    }
    if chars_eq_str(&v, "HouseFill") {
        assert(card_icon_name(CardIcon::HouseFill) == name@);
        return CardIcon::HouseFill;
    }
    if chars_eq_str(&v, "Lightning") {
        assert(card_icon_name(CardIcon::Lightning) == name@);
        return CardIcon::Lightning;
    }
    if chars_eq_str(&v, "LightningFill") {
        assert(card_icon_name(CardIcon::LightningFill) == name@);
        return CardIcon::LightningFill;
    }
    if chars_eq_str(&v, "Lightbulb") {
        assert(card_icon_name(CardIcon::Lightbulb) == name@);
        return CardIcon::Lightbulb;
    }
    if chars_eq_str(&v, "LightbulbFill") {
        assert(card_icon_name(CardIcon::LightbulbFill) == name@);
        return CardIcon::LightbulbFill;
    }
    if chars_eq_str(&v, "Link") {
        assert(card_icon_name(CardIcon::Link) == name@);
        return CardIcon::Link;
    }
    if chars_eq_str(&v, "Lock") {
        assert(card_icon_name(CardIcon::Lock) == name@);
        return CardIcon::Lock;
    }
    if chars_eq_str(&v, "LockFill") {
        assert(card_icon_name(CardIcon::LockFill) == name@);
        return CardIcon::LockFill;
    }
    if chars_eq_str(&v, "Unlock") {
        assert(card_icon_name(CardIcon::Unlock) == name@);
        return CardIcon::Unlock;
    }
    if chars_eq_str(&v, "UnlockFill") {
        assert(card_icon_name(CardIcon::UnlockFill) == name@);
        return CardIcon::UnlockFill;
    }
    if chars_eq_str(&v, "Pencil") {
        assert(card_icon_name(CardIcon::Pencil) == name@);
        return CardIcon::Pencil;
    }
    if chars_eq_str(&v, "PencilFill") {
        assert(card_icon_name(CardIcon::PencilFill) == name@);
        return CardIcon::PencilFill;
    }
    if chars_eq_str(&v, "Pin") {
        assert(card_icon_name(CardIcon::Pin) == name@);
        return CardIcon::Pin;
    }
    if chars_eq_str(&v, "PinFill") {
        assert(card_icon_name(CardIcon::PinFill) == name@);
        return CardIcon::PinFill;
    }
    if chars_eq_str(&v, "Tag") {
        assert(card_icon_name(CardIcon::Tag) == name@);
        return CardIcon::Tag;
    }
    if chars_eq_str(&v, "TagFill") {
        assert(card_icon_name(CardIcon::TagFill) == name@);
        return CardIcon::TagFill;
    }
    if chars_eq_str(&v, "Trophy") {
        assert(card_icon_name(CardIcon::Trophy) == name@);
        return CardIcon::Trophy;
    }
    if chars_eq_str(&v, "TrophyFill") {
        assert(card_icon_name(CardIcon::TrophyFill) == name@);
        return CardIcon::TrophyFill;
    }
    if chars_eq_str(&v, "Cloud") {
        assert(card_icon_name(CardIcon::Cloud) == name@);
        return CardIcon::Cloud;
    }
    if chars_eq_str(&v, "CloudFill") {
        assert(card_icon_name(CardIcon::CloudFill) == name@);
        return CardIcon::CloudFill;
    }
    if chars_eq_str(&v, "Sun") {
        assert(card_icon_name(CardIcon::Sun) == name@);
        return CardIcon::Sun;
    }
    if chars_eq_str(&v, "Moon") {
        assert(card_icon_name(CardIcon::Moon) == name@);
        return CardIcon::Moon;
    }
    if chars_eq_str(&v, "Umbrella") {
        assert(card_icon_name(CardIcon::Umbrella) == name@);
        return CardIcon::Umbrella;
    }
    if chars_eq_str(&v, "UmbrellaFill") {
        assert(card_icon_name(CardIcon::UmbrellaFill) == name@);
        return CardIcon::UmbrellaFill;
    }
    if chars_eq_str(&v, "Fire") {
        assert(card_icon_name(CardIcon::Fire) == name@);
        return CardIcon::Fire;
    }
    if chars_eq_str(&v, "Flower1") {
        assert(card_icon_name(CardIcon::Flower1) == name@);
        return CardIcon::Flower1;
    }
    if chars_eq_str(&v, "Tree") {
        assert(card_icon_name(CardIcon::Tree) == name@);
        return CardIcon::Tree;
    }
    if chars_eq_str(&v, "Bell") {
        assert(card_icon_name(CardIcon::Bell) == name@);
        return CardIcon::Bell;
    }
    if chars_eq_str(&v, "BellFill") {
        assert(card_icon_name(CardIcon::BellFill) == name@);
        return CardIcon::BellFill;
    }
    if chars_eq_str(&v, "Chat") {
        assert(card_icon_name(CardIcon::Chat) == name@);
        return CardIcon::Chat;
    }
    if chars_eq_str(&v, "ChatFill") {
        assert(card_icon_name(CardIcon::ChatFill) == name@);
        return CardIcon::ChatFill;
    }
    if chars_eq_str(&v, "Envelope") {
        assert(card_icon_name(CardIcon::Envelope) == name@);
        return CardIcon::Envelope;
    }
    if chars_eq_str(&v, "EnvelopeFill") {
        assert(card_icon_name(CardIcon::EnvelopeFill) == name@);
        return CardIcon::EnvelopeFill;
    }
    if chars_eq_str(&v, "Telephone") {
        assert(card_icon_name(CardIcon::Telephone) == name@);
        return CardIcon::Telephone;
    }
    if chars_eq_str(&v, "TelephoneFill") {
        assert(card_icon_name(CardIcon::TelephoneFill) == name@);
        return CardIcon::TelephoneFill;
    }
    if chars_eq_str(&v, "Camera") {
        assert(card_icon_name(CardIcon::Camera) == name@);
        return CardIcon::Camera;
    }
    if chars_eq_str(&v, "CameraFill") {
        assert(card_icon_name(CardIcon::CameraFill) == name@);
        return CardIcon::CameraFill;
    }
    if chars_eq_str(&v, "Laptop") {
        assert(card_icon_name(CardIcon::Laptop) == name@);
        return CardIcon::Laptop;
    }
    if chars_eq_str(&v, "Phone") {
        assert(card_icon_name(CardIcon::Phone) == name@);
        return CardIcon::Phone;
    }
    if chars_eq_str(&v, "Wifi") {
        assert(card_icon_name(CardIcon::Wifi) == name@);
        return CardIcon::Wifi;
    }
    if chars_eq_str(&v, "Person") {
        assert(card_icon_name(CardIcon::Person) == name@);
        return CardIcon::Person;
    }
    if chars_eq_str(&v, "PersonFill") {
        assert(card_icon_name(CardIcon::PersonFill) == name@);
        return CardIcon::PersonFill;
    }
    if chars_eq_str(&v, "People") {
        assert(card_icon_name(CardIcon::People) == name@);
        return CardIcon::People;
    }
    if chars_eq_str(&v, "PeopleFill") {
        assert(card_icon_name(CardIcon::PeopleFill) == name@);
        return CardIcon::PeopleFill;
    }
    if chars_eq_str(&v, "Eye") {
        assert(card_icon_name(CardIcon::Eye) == name@);
        return CardIcon::Eye;
    }
    if chars_eq_str(&v, "EyeFill") {
        assert(card_icon_name(CardIcon::EyeFill) == name@);
        return CardIcon::EyeFill;
    }
    if chars_eq_str(&v, "Hand") {
        assert(card_icon_name(CardIcon::Hand) == name@);
        return CardIcon::Hand;
    }
    if chars_eq_str(&v, "Cup") {
        assert(card_icon_name(CardIcon::Cup) == name@);
        return CardIcon::Cup;
    }
    if chars_eq_str(&v, "CupFill") {
        assert(card_icon_name(CardIcon::CupFill) == name@);
        return CardIcon::CupFill;
    }
    if chars_eq_str(&v, "Cart") {
        assert(card_icon_name(CardIcon::Cart) == name@);
        return CardIcon::Cart;
    }
    if chars_eq_str(&v, "CartFill") {
        assert(card_icon_name(CardIcon::CartFill) == name@);
        return CardIcon::CartFill;
    }
    if chars_eq_str(&v, "CreditCard") {
        assert(card_icon_name(CardIcon::CreditCard) == name@);
        return CardIcon::CreditCard;
    }
    if chars_eq_str(&v, "CreditCardFill") {
        assert(card_icon_name(CardIcon::CreditCardFill) == name@);
        return CardIcon::CreditCardFill;
    }
    if chars_eq_str(&v, "Graph") {
        assert(card_icon_name(CardIcon::Graph) == name@);
        return CardIcon::Graph;
    }
    if chars_eq_str(&v, "GraphUp") {
        assert(card_icon_name(CardIcon::GraphUp) == name@);
        return CardIcon::GraphUp;
    }
    if chars_eq_str(&v, "GraphDown") {
        assert(card_icon_name(CardIcon::GraphDown) == name@);
        return CardIcon::GraphDown;
    }
    if chars_eq_str(&v, "Briefcase") {
        assert(card_icon_name(CardIcon::Briefcase) == name@);
        return CardIcon::Briefcase;
    }
    if chars_eq_str(&v, "BriefcaseFill") {
        assert(card_icon_name(CardIcon::BriefcaseFill) == name@);
        return CardIcon::BriefcaseFill;
    }
    if chars_eq_str(&v, "Play") {
        assert(card_icon_name(CardIcon::Play) == name@);
        return CardIcon::Play;
    }
    if chars_eq_str(&v, "PlayFill") {
        assert(card_icon_name(CardIcon::PlayFill) == name@);
        return CardIcon::PlayFill;
    }
    if chars_eq_str(&v, "Pause") {
        assert(card_icon_name(CardIcon::Pause) == name@);
        return CardIcon::Pause;
    }
    if chars_eq_str(&v, "PauseFill") {
        assert(card_icon_name(CardIcon::PauseFill) == name@);
        return CardIcon::PauseFill;
    }
    if chars_eq_str(&v, "Stop") {
        assert(card_icon_name(CardIcon::Stop) == name@);
        return CardIcon::Stop;
    }
    if chars_eq_str(&v, "StopFill") {
        assert(card_icon_name(CardIcon::StopFill) == name@);
        return CardIcon::StopFill;
    }
    if chars_eq_str(&v, "Music") {
        assert(card_icon_name(CardIcon::Music) == name@);
        return CardIcon::Music;
    }
    if chars_eq_str(&v, "MusicFill") {
        assert(card_icon_name(CardIcon::MusicFill) == name@);
        return CardIcon::MusicFill;
    }
    if chars_eq_str(&v, "Image") {
        assert(card_icon_name(CardIcon::Image) == name@);
        return CardIcon::Image;
    }
    if chars_eq_str(&v, "ImageFill") {
        assert(card_icon_name(CardIcon::ImageFill) == name@);
        return CardIcon::ImageFill;
    }
    if chars_eq_str(&v, "Film") {
        assert(card_icon_name(CardIcon::Film) == name@);
        return CardIcon::Film;
    }
    if chars_eq_str(&v, "Gift") {
        assert(card_icon_name(CardIcon::Gift) == name@);
        return CardIcon::Gift;
    }
    if chars_eq_str(&v, "GiftFill") {
        assert(card_icon_name(CardIcon::GiftFill) == name@);
        return CardIcon::GiftFill;
    }
    if chars_eq_str(&v, "Balloon") {
        assert(card_icon_name(CardIcon::Balloon) == name@);
        return CardIcon::Balloon;
    }
    if chars_eq_str(&v, "BalloonFill") {
        assert(card_icon_name(CardIcon::BalloonFill) == name@);
        return CardIcon::BalloonFill;
    }
    if chars_eq_str(&v, "Gem") {
        assert(card_icon_name(CardIcon::Gem) == name@);
        return CardIcon::Gem;
    }
    if chars_eq_str(&v, "Puzzle") {
        assert(card_icon_name(CardIcon::Puzzle) == name@);
        return CardIcon::Puzzle;
    }
    if chars_eq_str(&v, "PuzzleFill") {
        assert(card_icon_name(CardIcon::PuzzleFill) == name@);
        return CardIcon::PuzzleFill;
    }
    if chars_eq_str(&v, "Clipboard") {
        assert(card_icon_name(CardIcon::Clipboard) == name@);
        return CardIcon::Clipboard;
    }
    if chars_eq_str(&v, "ClipboardFill") {
        assert(card_icon_name(CardIcon::ClipboardFill) == name@);
        return CardIcon::ClipboardFill;
    }
    assert forall|icon: CardIcon| card_icon_name(icon) != name@ by {
        match icon {
            CardIcon::Default => {},
            CardIcon::Star => {},
            CardIcon::Heart => {},
            CardIcon::Circle => {},
            CardIcon::Square => {},
            CardIcon::Triangle => {},
            CardIcon::Check => {},
            CardIcon::Cross => {},
            CardIcon::Question => {},
            CardIcon::Exclamation => {},
            CardIcon::Plus => {},
            CardIcon::Minus => {},
            CardIcon::StarFill => {},
            CardIcon::HeartFill => {},
            CardIcon::CircleFill => {},
            CardIcon::SquareFill => {},
            CardIcon::TriangleFill => {},
            CardIcon::Diamond => {},
            CardIcon::DiamondFill => {},
            CardIcon::Hexagon => {},
            CardIcon::HexagonFill => {},
            CardIcon::Octagon => {},
            CardIcon::OctagonFill => {},
            CardIcon::Pentagon => {},
            CardIcon::PentagonFill => {},
            CardIcon::CheckCircle => {},
            CardIcon::CheckCircleFill => {},
            CardIcon::XCircle => {},
            CardIcon::XCircleFill => {},
            CardIcon::InfoCircle => {},
            CardIcon::InfoCircleFill => {},
            CardIcon::ExclamationTriangle => {},
            CardIcon::ExclamationTriangleFill => {},
            CardIcon::ExclamationCircle => {},
            CardIcon::ExclamationCircleFill => {},
            CardIcon::QuestionCircle => {},
            CardIcon::QuestionCircleFill => {},
            CardIcon::PlusCircle => {},
            CardIcon::PlusCircleFill => {},
            CardIcon::DashCircle => {},
            CardIcon::DashCircleFill => {},
            CardIcon::ArrowUp => {},
            CardIcon::ArrowDown => {},
            CardIcon::ArrowLeft => {},
            CardIcon::ArrowRight => {},
            CardIcon::ArrowUpCircle => {},
            CardIcon::ArrowDownCircle => {},
            CardIcon::ArrowLeftCircle => {},
            CardIcon::ArrowRightCircle => {},
            CardIcon::Book => {},
            CardIcon::BookFill => {},
            CardIcon::Bookmark => {},
            CardIcon::BookmarkFill => {},
            CardIcon::Calendar => {},
            CardIcon::CalendarFill => {},
            CardIcon::Clock => {},
            CardIcon::ClockFill => {},
            CardIcon::Flag => {},
            CardIcon::FlagFill => {},
            CardIcon::Folder => {},
            CardIcon::FolderFill => {},
            CardIcon::Gear => {},
            CardIcon::GearFill => {},
            CardIcon::House => {},
            CardIcon::HouseFill => {},
            CardIcon::Lightning => {},
            CardIcon::LightningFill => {},
            CardIcon::Lightbulb => {},
            CardIcon::LightbulbFill => {},
            CardIcon::Link => {},
            CardIcon::Lock => {},
            CardIcon::LockFill => {},
            CardIcon::Unlock => {},
            CardIcon::UnlockFill => {},
            CardIcon::Pencil => {},
            CardIcon::PencilFill => {},
            CardIcon::Pin => {},
            CardIcon::PinFill => {},
            CardIcon::Tag => {},
            CardIcon::TagFill => {},
            CardIcon::Trophy => {},
            CardIcon::TrophyFill => {},
            CardIcon::Cloud => {},
            CardIcon::CloudFill => {},
            CardIcon::Sun => {},
            CardIcon::Moon => {},
            CardIcon::Umbrella => {},
            CardIcon::UmbrellaFill => {},
            CardIcon::Fire => {},
            CardIcon::Flower1 => {},
            CardIcon::Tree => {},
            CardIcon::Bell => {},
            CardIcon::BellFill => {},
            CardIcon::Chat => {},
            CardIcon::ChatFill => {},
            CardIcon::Envelope => {},
            CardIcon::EnvelopeFill => {},
            CardIcon::Telephone => {},
            CardIcon::TelephoneFill => {},
            CardIcon::Camera => {},
            CardIcon::CameraFill => {},
            CardIcon::Laptop => {},
            CardIcon::Phone => {},
            CardIcon::Wifi => {},
            CardIcon::Person => {},
            CardIcon::PersonFill => {},
            CardIcon::People => {},
            CardIcon::PeopleFill => {},
            CardIcon::Eye => {},
            CardIcon::EyeFill => {},
            CardIcon::Hand => {},
            CardIcon::Cup => {},
            CardIcon::CupFill => {},
            CardIcon::Cart => {},
            CardIcon::CartFill => {},
            CardIcon::CreditCard => {},
            CardIcon::CreditCardFill => {},
            CardIcon::Graph => {},
            CardIcon::GraphUp => {},
            CardIcon::GraphDown => {},
            CardIcon::Briefcase => {},
            CardIcon::BriefcaseFill => {},
            CardIcon::Play => {},
            CardIcon::PlayFill => {},
            CardIcon::Pause => {},
            CardIcon::PauseFill => {},
            CardIcon::Stop => {},
            CardIcon::StopFill => {},
            CardIcon::Music => {},
            CardIcon::MusicFill => {},
            CardIcon::Image => {},
            CardIcon::ImageFill => {},
            CardIcon::Film => {},
            CardIcon::Gift => {},
            CardIcon::GiftFill => {},
            CardIcon::Balloon => {},
            CardIcon::BalloonFill => {},
            CardIcon::Gem => {},
            CardIcon::Puzzle => {},
            CardIcon::PuzzleFill => {},
            CardIcon::Clipboard => {},
            CardIcon::ClipboardFill => {},
        }
    }
    CardIcon::Default
}

} // verus!
