use elf2tab::convert::{convert, Options};
use elf2tab::error::{ConvertError, ErrorKind};
use elf2tab::footer::rsa4096_credential;
use elf2tab::image::{ElfImage, Section, Segment};

/// A 4096-bit key that was made for these tests and protects nothing.
const TEST_KEY_4096: [u8; 2348] = [
    48, 130, 9, 40, 2, 1, 0, 2, 130, 2, 1, 0, 178, 190, 66, 15,
    52, 218, 104, 113, 60, 160, 127, 192, 22, 216, 234, 77, 201, 185, 131, 101,
    150, 81, 172, 105, 120, 217, 154, 35, 132, 87, 91, 5, 66, 245, 50, 47,
    219, 83, 54, 205, 125, 152, 161, 223, 164, 163, 219, 139, 196, 10, 151, 105,
    15, 114, 180, 1, 244, 62, 93, 136, 169, 246, 85, 26, 187, 203, 223, 62,
    89, 192, 44, 234, 31, 87, 41, 118, 13, 2, 67, 194, 234, 114, 229, 233,
    161, 167, 224, 227, 22, 247, 215, 182, 28, 27, 221, 234, 127, 69, 216, 159,
    51, 239, 51, 223, 133, 81, 21, 237, 67, 20, 0, 150, 177, 28, 14, 38,
    214, 220, 173, 96, 115, 68, 147, 85, 55, 22, 116, 247, 67, 36, 37, 194,
    67, 112, 223, 131, 227, 25, 144, 202, 151, 196, 173, 242, 117, 62, 214, 39,
    102, 65, 167, 252, 167, 237, 205, 114, 35, 211, 37, 43, 215, 173, 149, 68,
    57, 224, 57, 223, 165, 173, 250, 139, 231, 36, 180, 179, 11, 119, 152, 43,
    132, 215, 60, 55, 71, 209, 141, 204, 29, 54, 195, 29, 212, 174, 32, 130,
    60, 23, 118, 229, 245, 119, 139, 136, 127, 58, 94, 146, 126, 177, 114, 104,
    170, 179, 96, 97, 120, 138, 186, 67, 157, 78, 175, 236, 245, 80, 22, 51,
    94, 57, 75, 118, 65, 59, 88, 128, 166, 114, 188, 120, 191, 251, 161, 67,
    187, 106, 77, 135, 113, 38, 97, 164, 179, 238, 213, 210, 71, 238, 143, 70,
    81, 2, 243, 114, 98, 45, 105, 253, 168, 30, 163, 105, 189, 149, 140, 10,
    171, 4, 186, 168, 113, 191, 252, 11, 214, 50, 67, 174, 108, 247, 11, 104,
    250, 105, 224, 50, 157, 93, 240, 220, 13, 147, 181, 100, 95, 143, 197, 30,
    15, 13, 81, 2, 114, 140, 237, 171, 175, 156, 134, 164, 103, 206, 92, 97,
    27, 147, 70, 220, 34, 81, 144, 142, 152, 82, 122, 15, 142, 120, 105, 228,
    137, 153, 60, 209, 235, 217, 178, 109, 198, 160, 199, 117, 69, 81, 176, 206,
    154, 91, 163, 195, 122, 16, 45, 83, 145, 87, 174, 40, 47, 152, 184, 140,
    28, 176, 238, 180, 224, 229, 53, 77, 60, 174, 111, 19, 110, 140, 59, 228,
    150, 177, 12, 214, 29, 14, 68, 138, 134, 189, 146, 144, 0, 20, 172, 1,
    72, 140, 222, 3, 42, 12, 127, 190, 98, 12, 167, 154, 178, 238, 26, 91,
    172, 248, 120, 132, 161, 232, 136, 252, 47, 27, 177, 28, 13, 98, 110, 236,
    152, 249, 249, 153, 14, 3, 184, 60, 17, 196, 166, 240, 22, 229, 234, 216,
    194, 201, 76, 119, 48, 101, 201, 187, 37, 134, 125, 114, 146, 186, 71, 149,
    242, 155, 150, 170, 21, 158, 202, 50, 141, 94, 175, 98, 32, 9, 212, 27,
    238, 155, 154, 4, 120, 142, 198, 165, 27, 45, 230, 202, 150, 62, 234, 159,
    151, 194, 172, 120, 34, 184, 89, 174, 33, 155, 148, 81, 2, 3, 1, 0,
    1, 2, 130, 2, 0, 36, 213, 155, 100, 105, 214, 102, 118, 139, 113, 97,
    210, 50, 131, 34, 9, 196, 187, 227, 173, 144, 36, 37, 157, 24, 167, 243,
    33, 69, 153, 0, 235, 93, 40, 141, 94, 154, 90, 148, 45, 21, 168, 90,
    23, 109, 228, 204, 142, 9, 104, 203, 89, 253, 178, 124, 16, 249, 5, 207,
    29, 166, 52, 218, 197, 231, 20, 116, 221, 114, 254, 108, 227, 20, 113, 80,
    92, 129, 2, 201, 247, 5, 124, 135, 15, 181, 222, 20, 52, 136, 27, 172,
    10, 221, 209, 10, 82, 212, 70, 143, 5, 3, 221, 83, 249, 200, 141, 244,
    176, 79, 197, 243, 247, 25, 233, 119, 171, 30, 85, 28, 175, 135, 33, 135,
    33, 36, 248, 142, 67, 20, 69, 131, 56, 124, 208, 106, 103, 81, 234, 7,
    82, 16, 163, 153, 219, 32, 185, 65, 197, 157, 199, 130, 248, 72, 156, 243,
    93, 5, 175, 241, 245, 142, 125, 57, 136, 245, 74, 85, 114, 214, 192, 59,
    37, 16, 141, 154, 101, 89, 68, 28, 138, 63, 86, 97, 148, 220, 202, 124,
    231, 166, 207, 141, 182, 252, 136, 163, 175, 98, 245, 204, 237, 71, 192, 10,
    115, 167, 16, 94, 195, 222, 178, 239, 170, 77, 31, 41, 9, 253, 30, 205,
    146, 184, 124, 170, 57, 113, 54, 63, 84, 247, 162, 100, 0, 43, 34, 49,
    51, 85, 217, 200, 40, 52, 28, 5, 88, 33, 107, 159, 45, 125, 174, 84,
    169, 237, 224, 150, 148, 102, 25, 129, 15, 42, 223, 185, 51, 204, 115, 234,
    232, 107, 121, 240, 53, 3, 162, 78, 69, 255, 198, 18, 163, 30, 198, 203,
    12, 144, 133, 140, 69, 176, 92, 32, 12, 15, 105, 76, 88, 252, 160, 34,
    22, 34, 72, 210, 224, 162, 158, 52, 243, 36, 25, 194, 154, 6, 192, 106,
    170, 54, 131, 45, 230, 96, 56, 220, 89, 122, 38, 237, 11, 72, 1, 58,
    51, 59, 2, 164, 68, 108, 109, 209, 167, 44, 5, 247, 59, 47, 76, 50,
    6, 156, 194, 4, 155, 229, 81, 152, 190, 165, 69, 46, 146, 8, 100, 170,
    121, 171, 175, 67, 39, 141, 255, 245, 223, 112, 247, 4, 219, 100, 188, 241,
    66, 151, 41, 10, 169, 222, 100, 195, 159, 158, 131, 76, 5, 86, 31, 142,
    171, 37, 105, 74, 148, 230, 246, 88, 96, 107, 200, 87, 174, 55, 109, 170,
    164, 117, 83, 174, 150, 218, 14, 198, 243, 155, 153, 66, 59, 108, 176, 8,
    49, 102, 68, 175, 178, 116, 32, 233, 121, 128, 149, 82, 246, 17, 227, 196,
    22, 121, 35, 56, 62, 199, 246, 146, 14, 152, 38, 234, 131, 109, 131, 242,
    142, 153, 245, 240, 221, 225, 46, 60, 13, 6, 157, 47, 39, 171, 135, 45,
    49, 135, 197, 162, 202, 173, 141, 89, 102, 32, 121, 87, 239, 55, 14, 234,
    199, 16, 202, 156, 160, 11, 27, 35, 1, 164, 205, 131, 199, 189, 11, 169,
    196, 180, 95, 93, 79, 2, 130, 1, 1, 0, 229, 48, 95, 58, 218, 161,
    101, 110, 233, 219, 227, 9, 93, 50, 219, 24, 223, 160, 187, 136, 32, 162,
    37, 180, 143, 158, 26, 144, 77, 180, 131, 72, 7, 253, 0, 20, 170, 70,
    231, 117, 254, 14, 246, 216, 4, 244, 203, 221, 98, 160, 89, 0, 121, 95,
    88, 192, 64, 182, 56, 29, 73, 240, 140, 188, 157, 141, 205, 187, 155, 60,
    152, 247, 122, 165, 183, 100, 181, 23, 119, 248, 84, 84, 79, 203, 49, 239,
    223, 132, 145, 220, 139, 65, 254, 10, 39, 245, 114, 117, 100, 32, 191, 24,
    184, 194, 255, 100, 101, 54, 105, 211, 5, 208, 95, 201, 171, 177, 54, 129,
    24, 249, 217, 178, 226, 93, 128, 39, 159, 140, 228, 4, 2, 252, 59, 96,
    252, 160, 156, 167, 148, 209, 237, 14, 212, 180, 18, 138, 202, 17, 186, 232,
    118, 138, 186, 4, 114, 56, 182, 219, 192, 225, 47, 150, 163, 45, 141, 143,
    115, 7, 168, 27, 198, 214, 148, 111, 84, 166, 6, 33, 207, 218, 165, 156,
    30, 7, 123, 47, 117, 199, 146, 44, 71, 147, 107, 56, 64, 125, 225, 144,
    140, 153, 61, 87, 155, 143, 27, 159, 79, 243, 60, 87, 50, 254, 54, 41,
    235, 160, 105, 204, 38, 177, 226, 35, 23, 120, 160, 0, 152, 151, 39, 249,
    59, 212, 153, 36, 206, 0, 110, 26, 112, 14, 145, 73, 22, 239, 182, 17,
    113, 78, 107, 186, 216, 190, 130, 99, 217, 131, 2, 130, 1, 1, 0, 199,
    167, 41, 220, 179, 124, 64, 114, 195, 67, 109, 86, 223, 32, 17, 41, 106,
    41, 131, 6, 76, 44, 49, 4, 88, 251, 188, 150, 192, 101, 198, 239, 95,
    58, 51, 53, 41, 47, 175, 137, 38, 92, 192, 200, 234, 43, 130, 119, 235,
    47, 200, 151, 114, 108, 184, 212, 51, 64, 127, 254, 233, 127, 127, 215, 148,
    188, 175, 42, 210, 174, 151, 7, 123, 250, 178, 189, 253, 138, 244, 195, 146,
    236, 58, 213, 185, 202, 77, 200, 208, 224, 224, 9, 32, 196, 3, 142, 97,
    246, 153, 69, 205, 41, 118, 207, 200, 171, 6, 166, 123, 103, 231, 209, 111,
    100, 134, 48, 126, 160, 42, 193, 135, 40, 51, 176, 41, 125, 1, 48, 162,
    137, 82, 69, 159, 148, 230, 12, 205, 75, 137, 119, 47, 44, 157, 50, 15,
    70, 52, 183, 188, 143, 151, 143, 12, 149, 194, 199, 125, 202, 98, 41, 25,
    138, 97, 15, 195, 210, 48, 53, 183, 15, 43, 155, 13, 53, 109, 91, 99,
    217, 240, 90, 16, 148, 119, 134, 95, 179, 83, 69, 247, 240, 57, 8, 211,
    224, 51, 34, 5, 2, 76, 35, 131, 190, 60, 57, 246, 2, 58, 233, 97,
    179, 126, 96, 129, 195, 155, 69, 16, 95, 176, 157, 159, 168, 79, 90, 223,
    216, 69, 164, 38, 53, 6, 190, 208, 119, 25, 211, 34, 81, 255, 172, 115,
    230, 224, 233, 152, 46, 78, 65, 107, 240, 87, 191, 176, 225, 246, 155, 2,
    130, 1, 0, 103, 170, 16, 120, 227, 104, 251, 35, 70, 221, 241, 124, 75,
    206, 115, 241, 117, 61, 19, 117, 200, 36, 239, 95, 19, 82, 212, 251, 14,
    90, 166, 194, 206, 242, 45, 182, 43, 42, 181, 8, 214, 168, 88, 24, 111,
    109, 118, 68, 165, 150, 151, 139, 50, 90, 225, 30, 220, 102, 79, 77, 88,
    35, 88, 212, 251, 130, 167, 90, 195, 37, 142, 158, 233, 183, 201, 18, 225,
    34, 67, 94, 108, 110, 82, 69, 59, 74, 31, 84, 172, 81, 16, 32, 2,
    82, 255, 173, 242, 94, 140, 178, 143, 29, 20, 125, 6, 221, 151, 54, 28,
    121, 153, 120, 157, 202, 239, 64, 209, 193, 100, 213, 166, 21, 86, 116, 42,
    66, 65, 213, 141, 81, 15, 52, 157, 123, 9, 233, 111, 210, 16, 235, 63,
    9, 101, 70, 41, 216, 226, 251, 80, 10, 83, 139, 254, 5, 130, 208, 138,
    77, 45, 153, 237, 87, 122, 105, 97, 77, 80, 31, 87, 119, 112, 225, 159,
    244, 23, 90, 157, 13, 112, 33, 154, 164, 217, 164, 82, 160, 173, 234, 94,
    0, 111, 67, 139, 204, 190, 198, 241, 94, 219, 105, 120, 168, 134, 177, 29,
    50, 91, 12, 78, 239, 182, 29, 235, 203, 220, 75, 11, 111, 142, 213, 8,
    207, 12, 143, 191, 247, 101, 13, 129, 196, 38, 190, 203, 162, 45, 23, 94,
    181, 208, 151, 150, 57, 116, 9, 106, 213, 202, 229, 72, 175, 19, 216, 95,
    203, 224, 23, 2, 130, 1, 0, 47, 72, 142, 168, 127, 53, 129, 9, 236,
    230, 174, 33, 113, 204, 101, 100, 26, 137, 100, 71, 124, 136, 198, 191, 17,
    215, 228, 173, 11, 57, 207, 104, 103, 116, 32, 38, 137, 239, 138, 50, 0,
    12, 221, 119, 119, 198, 0, 43, 40, 94, 243, 177, 178, 94, 191, 83, 58,
    36, 31, 108, 30, 158, 156, 135, 80, 233, 114, 206, 192, 128, 170, 178, 18,
    17, 168, 125, 72, 107, 189, 86, 8, 24, 188, 66, 91, 178, 230, 195, 21,
    124, 252, 114, 12, 249, 127, 34, 28, 95, 75, 163, 117, 88, 73, 148, 34,
    33, 38, 253, 12, 162, 234, 10, 246, 199, 166, 228, 27, 73, 17, 119, 45,
    236, 62, 121, 141, 9, 214, 219, 78, 211, 24, 209, 246, 94, 76, 49, 97,
    249, 110, 191, 244, 67, 43, 163, 108, 108, 163, 21, 148, 169, 169, 42, 46,
    191, 213, 22, 107, 219, 31, 110, 62, 103, 64, 95, 124, 111, 238, 12, 250,
    162, 180, 32, 15, 123, 196, 191, 109, 33, 115, 67, 209, 67, 104, 31, 65,
    208, 245, 122, 207, 162, 107, 207, 132, 102, 71, 149, 217, 251, 214, 78, 94,
    232, 17, 217, 100, 66, 216, 242, 230, 185, 156, 199, 124, 83, 248, 20, 222,
    48, 219, 98, 41, 42, 178, 72, 130, 84, 245, 1, 80, 47, 36, 190, 210,
    30, 50, 214, 134, 253, 70, 128, 240, 30, 16, 204, 33, 199, 109, 175, 30,
    194, 23, 246, 5, 13, 46, 219, 2, 130, 1, 1, 0, 133, 209, 41, 119,
    128, 97, 76, 51, 234, 103, 19, 96, 84, 245, 159, 205, 6, 19, 103, 28,
    218, 52, 175, 112, 221, 145, 71, 94, 141, 221, 49, 211, 235, 122, 48, 36,
    223, 162, 14, 132, 29, 136, 13, 149, 142, 9, 94, 109, 110, 75, 46, 227,
    178, 110, 225, 248, 4, 130, 122, 62, 151, 127, 107, 250, 179, 60, 75, 53,
    21, 118, 42, 131, 185, 127, 65, 159, 154, 173, 117, 16, 144, 197, 198, 255,
    236, 246, 129, 16, 248, 187, 6, 247, 72, 253, 252, 183, 240, 46, 44, 142,
    69, 70, 115, 193, 72, 134, 92, 10, 108, 49, 124, 227, 190, 163, 187, 56,
    33, 0, 201, 193, 251, 202, 129, 216, 250, 47, 210, 68, 95, 36, 153, 160,
    41, 116, 134, 117, 146, 200, 182, 101, 238, 16, 65, 201, 54, 55, 64, 223,
    9, 192, 193, 222, 118, 145, 183, 19, 37, 202, 220, 101, 233, 77, 206, 159,
    113, 198, 110, 219, 112, 12, 110, 25, 106, 249, 114, 101, 246, 168, 254, 51,
    58, 106, 143, 179, 120, 244, 246, 137, 218, 209, 53, 92, 194, 36, 235, 221,
    4, 15, 174, 237, 66, 199, 181, 214, 229, 60, 2, 190, 57, 56, 16, 68,
    154, 74, 190, 2, 21, 75, 178, 127, 233, 97, 154, 179, 45, 12, 68, 95,
    82, 141, 52, 66, 60, 183, 87, 227, 39, 105, 22, 75, 177, 7, 175, 183,
    179, 93, 174, 240, 136, 195, 229, 91, 139, 40, 195, 225,
];

/// A 2048-bit key that was made for these tests and protects nothing.
const TEST_KEY_2048: [u8; 1190] = [
    48, 130, 4, 162, 2, 1, 0, 2, 130, 1, 1, 0, 147, 255, 219, 83,
    63, 33, 62, 138, 182, 107, 73, 227, 249, 85, 144, 120, 39, 238, 38, 51,
    106, 253, 131, 148, 72, 94, 38, 31, 53, 9, 191, 210, 184, 97, 98, 155,
    170, 43, 154, 50, 101, 160, 98, 47, 200, 178, 128, 75, 34, 155, 179, 144,
    205, 177, 9, 195, 186, 53, 242, 196, 109, 50, 242, 98, 100, 185, 81, 38,
    132, 204, 68, 143, 252, 149, 189, 200, 221, 83, 22, 159, 145, 245, 185, 103,
    223, 83, 249, 154, 32, 21, 115, 233, 173, 54, 127, 86, 68, 163, 191, 137,
    179, 28, 47, 54, 86, 201, 216, 174, 74, 209, 137, 193, 216, 113, 55, 107,
    194, 171, 179, 222, 153, 127, 205, 228, 169, 50, 228, 152, 32, 249, 165, 206,
    248, 245, 93, 100, 169, 30, 80, 233, 110, 62, 11, 204, 10, 52, 202, 147,
    106, 74, 149, 21, 180, 142, 206, 0, 112, 184, 159, 83, 99, 153, 104, 0,
    49, 42, 245, 219, 230, 179, 85, 30, 180, 71, 100, 69, 55, 252, 13, 80,
    108, 79, 177, 189, 124, 158, 59, 0, 0, 210, 91, 234, 159, 85, 90, 211,
    194, 41, 195, 235, 82, 99, 34, 31, 96, 125, 232, 221, 236, 111, 51, 98,
    1, 138, 76, 61, 140, 49, 64, 247, 71, 234, 171, 35, 114, 11, 242, 50,
    86, 45, 214, 32, 9, 168, 148, 204, 172, 94, 169, 6, 182, 152, 233, 154,
    140, 49, 91, 84, 125, 117, 97, 85, 5, 56, 200, 105, 2, 3, 1, 0,
    1, 2, 130, 1, 0, 5, 186, 98, 218, 59, 120, 197, 107, 103, 249, 10,
    16, 149, 63, 95, 10, 143, 125, 19, 164, 108, 209, 40, 13, 14, 169, 250,
    46, 190, 6, 69, 18, 218, 73, 6, 160, 128, 187, 20, 74, 60, 13, 179,
    143, 38, 228, 229, 187, 66, 185, 36, 255, 135, 62, 129, 98, 190, 107, 197,
    28, 30, 31, 217, 42, 190, 188, 63, 108, 78, 186, 123, 50, 217, 115, 80,
    55, 156, 125, 81, 68, 86, 201, 92, 102, 45, 74, 26, 64, 129, 90, 99,
    52, 153, 156, 32, 220, 141, 102, 139, 12, 192, 206, 103, 243, 97, 243, 136,
    251, 225, 240, 111, 52, 253, 244, 15, 209, 143, 100, 198, 222, 232, 48, 254,
    158, 137, 127, 235, 65, 250, 249, 172, 67, 220, 255, 213, 131, 146, 62, 166,
    230, 2, 104, 94, 172, 210, 93, 148, 186, 71, 217, 236, 84, 194, 57, 27,
    132, 159, 98, 29, 77, 137, 35, 239, 188, 66, 20, 167, 73, 149, 34, 241,
    35, 151, 11, 184, 135, 79, 34, 64, 26, 255, 127, 105, 88, 43, 81, 51,
    160, 124, 108, 55, 219, 29, 56, 22, 174, 56, 35, 206, 90, 12, 168, 255,
    31, 163, 246, 89, 121, 51, 214, 125, 209, 254, 74, 226, 138, 102, 128, 82,
    103, 250, 196, 24, 144, 252, 50, 236, 89, 241, 53, 244, 218, 106, 245, 111,
    218, 100, 252, 103, 132, 226, 20, 124, 146, 169, 116, 210, 20, 145, 115, 192,
    157, 41, 80, 210, 227, 2, 129, 129, 0, 205, 170, 43, 180, 189, 189, 180,
    135, 37, 118, 34, 95, 210, 44, 204, 179, 14, 133, 182, 150, 99, 120, 175,
    124, 25, 187, 23, 64, 109, 30, 81, 57, 110, 51, 155, 46, 115, 130, 95,
    201, 71, 106, 191, 140, 130, 199, 211, 58, 83, 226, 224, 229, 115, 197, 34,
    213, 215, 88, 52, 145, 158, 58, 121, 10, 5, 244, 109, 74, 231, 155, 123,
    27, 107, 180, 176, 89, 186, 2, 54, 95, 187, 9, 179, 66, 175, 216, 248,
    101, 198, 182, 122, 163, 193, 20, 31, 164, 20, 138, 243, 47, 124, 78, 113,
    248, 252, 142, 253, 162, 213, 93, 250, 75, 133, 159, 106, 89, 27, 225, 13,
    23, 29, 7, 221, 175, 80, 218, 217, 27, 2, 129, 129, 0, 184, 56, 177,
    155, 190, 102, 228, 82, 14, 233, 184, 21, 131, 103, 45, 80, 176, 193, 124,
    221, 109, 190, 141, 17, 179, 171, 29, 249, 128, 108, 196, 185, 174, 50, 99,
    252, 205, 247, 147, 18, 83, 188, 210, 225, 115, 211, 122, 188, 25, 252, 176,
    38, 252, 137, 118, 198, 121, 149, 221, 21, 54, 42, 64, 128, 233, 203, 235,
    137, 18, 222, 198, 45, 104, 132, 200, 155, 0, 14, 115, 104, 157, 29, 172,
    226, 127, 224, 251, 77, 49, 243, 255, 42, 252, 195, 85, 216, 207, 78, 199,
    183, 141, 187, 219, 208, 69, 252, 151, 214, 35, 56, 242, 211, 219, 154, 156,
    91, 160, 78, 85, 119, 155, 163, 167, 149, 247, 149, 224, 203, 2, 129, 128,
    107, 139, 86, 187, 118, 148, 162, 184, 32, 240, 187, 92, 219, 236, 173, 69,
    220, 140, 51, 68, 68, 211, 176, 255, 245, 252, 141, 86, 21, 57, 75, 67,
    250, 202, 101, 149, 78, 181, 152, 29, 10, 137, 89, 140, 194, 62, 119, 200,
    2, 97, 155, 52, 160, 235, 47, 34, 31, 47, 114, 157, 202, 221, 204, 185,
    95, 15, 199, 174, 233, 153, 182, 48, 74, 139, 251, 195, 143, 174, 228, 123,
    254, 180, 61, 214, 219, 89, 91, 218, 236, 164, 51, 81, 57, 255, 169, 228,
    5, 17, 251, 196, 146, 253, 250, 63, 54, 226, 22, 227, 117, 43, 101, 92,
    228, 140, 205, 241, 182, 208, 98, 37, 249, 250, 73, 4, 10, 5, 198, 141,
    2, 129, 128, 111, 227, 215, 84, 46, 0, 22, 123, 20, 157, 181, 246, 51,
    26, 110, 182, 140, 180, 232, 95, 33, 49, 212, 66, 197, 42, 144, 137, 35,
    12, 109, 44, 13, 246, 131, 46, 95, 247, 23, 247, 208, 174, 102, 51, 19,
    3, 134, 143, 75, 5, 100, 4, 57, 236, 80, 28, 218, 106, 64, 158, 138,
    136, 125, 39, 15, 89, 144, 212, 111, 134, 169, 61, 153, 54, 213, 20, 247,
    162, 207, 75, 225, 233, 205, 64, 192, 196, 232, 61, 137, 178, 149, 240, 9,
    23, 167, 67, 137, 30, 99, 69, 68, 43, 174, 165, 192, 108, 91, 216, 111,
    10, 62, 202, 152, 158, 62, 139, 148, 65, 31, 190, 6, 229, 14, 123, 146,
    166, 16, 163, 2, 129, 128, 118, 146, 155, 185, 122, 67, 184, 95, 185, 29,
    233, 203, 141, 236, 225, 255, 43, 27, 32, 85, 119, 25, 253, 205, 114, 61,
    196, 197, 188, 41, 17, 254, 86, 190, 171, 183, 197, 124, 253, 1, 8, 160,
    179, 50, 5, 10, 105, 10, 235, 196, 199, 139, 215, 165, 220, 184, 106, 246,
    172, 94, 233, 227, 78, 241, 235, 69, 84, 150, 167, 169, 200, 35, 108, 196,
    97, 24, 18, 17, 244, 127, 0, 174, 117, 234, 250, 22, 13, 134, 173, 215,
    131, 88, 165, 222, 3, 81, 139, 89, 158, 23, 212, 177, 70, 45, 251, 193,
    66, 112, 22, 238, 73, 184, 189, 43, 67, 183, 117, 111, 80, 220, 174, 241,
    111, 229, 254, 51, 32, 203,
];

/// The modulus of the 4096-bit test key, as it stands in the key.
fn modulus() -> Vec<u8> {
    TEST_KEY_4096[12..524].to_vec()
}

fn image() -> (ElfImage, Vec<u8>) {
    let mut file = vec![0u8; 64];
    file.extend((0..32).map(|i| i as u8));
    let image = ElfImage {
        machine: 243,
        entry: 0x8000_0004,
        segments: vec![Segment {
            p_type: 1,
            p_flags: 5,
            p_offset: 64,
            p_vaddr: 0x8000_0000,
            p_paddr: 0x8000_0000,
            p_filesz: 32,
            p_memsz: 32,
        }],
        sections: vec![Section {
            name: b".text".to_vec(),
            sh_type: 1,
            sh_flags: 6,
            sh_addr: 0x8000_0000,
            sh_offset: 64,
            sh_size: 32,
            data: (0..32).map(|i| i as u8).collect(),
        }],
        symbols: None,
    };
    (image, file)
}

fn options() -> Options {
    Options {
        package_name: None,
        stack_len: Some(2048),
        app_heap_len: 1024,
        kernel_heap_len: 1024,
        protected_region_size: None,
        permissions: Vec::new(),
        storage_ids: (None, None, None),
        kernel_version: None,
        disabled: false,
        minimum_footer_size: 0,
        app_version: 0,
        sha256: false,
        sha384: false,
        sha512: false,
        rsa4096_private_key: None,
        rsa4096_public_modulus: None,
    }
}

#[test]
fn private_key_without_public_key_is_refused() {
    let (image, file) = image();
    let mut options = options();
    options.rsa4096_private_key = Some(TEST_KEY_4096.to_vec());
    let error = convert(&image, &file, &options).unwrap_err();
    assert_eq!(error, ConvertError::MissingPublicKey);
    assert_eq!(error.kind(), ErrorKind::Layout);
}

#[test]
fn private_key_without_public_key_writes_nothing() {
    let mut output = vec![7u8, 7, 7];
    let result = elf2tab::convert::elf_to_tbf(
        &elf_bytes(),
        &mut output,
        None,
        None,
        1024,
        1024,
        None,
        Vec::new(),
        (None, None, None),
        None,
        false,
        0,
        0,
        false,
        false,
        false,
        Some(TEST_KEY_4096.to_vec()),
        None,
    );
    assert_eq!(result, Err(ConvertError::MissingPublicKey));
    assert_eq!(output, vec![7u8, 7, 7]);
}

#[test]
fn public_key_without_private_key_is_refused() {
    let (image, file) = image();
    let mut options = options();
    options.rsa4096_public_modulus = Some(modulus());
    assert_eq!(
        convert(&image, &file, &options).unwrap_err(),
        ConvertError::MissingPrivateKey
    );
}

#[test]
fn broken_private_key_is_refused() {
    let (image, file) = image();
    let mut options = options();
    options.rsa4096_private_key = Some(vec![0x30, 0x03, 0x02, 0x01, 0x00]);
    options.rsa4096_public_modulus = Some(modulus());
    assert_eq!(
        convert(&image, &file, &options).unwrap_err(),
        ConvertError::InvalidPrivateKey
    );
}

#[test]
fn key_of_another_size_is_refused() {
    let (image, file) = image();
    let mut options = options();
    options.rsa4096_private_key = Some(TEST_KEY_2048.to_vec());
    options.rsa4096_public_modulus = Some(modulus());
    assert_eq!(
        convert(&image, &file, &options).unwrap_err(),
        ConvertError::WrongModulusSize
    );
}

#[test]
fn short_public_modulus_is_refused() {
    let (image, file) = image();
    let mut options = options();
    options.rsa4096_private_key = Some(TEST_KEY_4096.to_vec());
    options.rsa4096_public_modulus = Some(modulus()[..511].to_vec());
    assert_eq!(
        convert(&image, &file, &options).unwrap_err(),
        ConvertError::PublicKeyTooShort
    );
    assert_eq!(
        rsa4096_credential(&[1u8; 511], &[2u8; 512]),
        Err(ConvertError::PublicKeyTooShort)
    );
}

#[test]
fn credential_holds_modulus_then_signature() {
    let mut long = vec![9u8; 512];
    long.extend([1u8, 2, 3]);
    let payload = rsa4096_credential(&long, &[4u8; 512]).unwrap();
    assert_eq!(payload.len(), 1024);
    assert_eq!(&payload[..512], &[9u8; 512][..]);
    assert_eq!(&payload[512..], &[4u8; 512][..]);
}

#[test]
fn signature_footer_verifies_against_the_key() {
    let (image, file) = image();
    let mut options = options();
    options.rsa4096_private_key = Some(TEST_KEY_4096.to_vec());
    options.rsa4096_public_modulus = Some(modulus());
    let conversion = convert(&image, &file, &options).unwrap();
    let bytes = conversion.bytes;
    // Header, segment, length of the relocation data.
    let binary_end = 56 + 32 + 4;
    assert_eq!(conversion.header.binary_end_offset(), binary_end as u32);
    assert_eq!(bytes.len(), binary_end + 8 + 1024);
    let footer = &bytes[binary_end..];
    assert_eq!(&footer[0..2], &128u16.to_le_bytes());
    assert_eq!(&footer[2..4], &1028u16.to_le_bytes());
    assert_eq!(&footer[4..8], &2u32.to_le_bytes());
    assert_eq!(&footer[8..520], &modulus()[..]);
    let signature = &footer[520..1032];
    let key = ring::signature::RsaPublicKeyComponents { n: modulus(), e: vec![1u8, 0, 1] };
    key.verify(
        &ring::signature::RSA_PKCS1_2048_8192_SHA512,
        &bytes[..binary_end],
        signature,
    )
    .expect("the signature covers what comes before the footers");
    // The same key and the same container give the same signature.
    let again = convert(&image, &file, &options).unwrap();
    assert_eq!(again.bytes, bytes);
}

/// A small 32-bit image: one segment of 32 bytes at the address that
/// stands for position-independent code, with one section.
fn elf_bytes() -> Vec<u8> {
    let names = b"\0.text\0.shstrtab\0";
    let mut file = Vec::new();
    file.extend([0x7f, b'E', b'L', b'F', 1, 1, 1, 0, 0, 0, 0, 0, 0, 0, 0, 0]);
    file.extend(2u16.to_le_bytes());
    file.extend(243u16.to_le_bytes());
    file.extend(1u32.to_le_bytes());
    file.extend(0x8000_0004u32.to_le_bytes());
    file.extend(52u32.to_le_bytes());
    let section_headers = 52 + 32 + 32 + names.len() as u32;
    file.extend(section_headers.to_le_bytes());
    file.extend(0u32.to_le_bytes());
    file.extend(52u16.to_le_bytes());
    file.extend(32u16.to_le_bytes());
    file.extend(1u16.to_le_bytes());
    file.extend(40u16.to_le_bytes());
    file.extend(3u16.to_le_bytes());
    file.extend(2u16.to_le_bytes());
    for word in [1u32, 84, 0x8000_0000, 0x8000_0000, 32, 32, 5, 4] {
        file.extend(word.to_le_bytes());
    }
    file.extend((0..32).map(|i| i as u8));
    file.extend(names);
    for header in [
        [0u32; 10],
        [1, 1, 6, 0x8000_0000, 84, 32, 0, 0, 4, 0],
        [7, 3, 0, 0, 116, names.len() as u32, 0, 0, 1, 0],
    ] {
        for word in header {
            file.extend(word.to_le_bytes());
        }
    }
    file
}
